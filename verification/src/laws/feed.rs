//! What is read from the nodes of an RSS document.

use vstd::prelude::*;
use vstd::string::*;
use vstd::utf8::*;

use crate::laws::words::{
    law_words_are_found_in_any_case, lemma_lower_is, lemma_lower_word, same_but_case, same_letter,
    stands_but_case,
};
use crate::models::ParsedView;
use crate::number::decimal_value;
use crate::outside::utf8_fault_of;
use crate::rss::{
    child_attribute_of, child_text_of, descendant_text_of, feed_of, find_element, is_torrent_link,
    item_of, items_from, response_feed, usable_feed,
};
use crate::text::{contains_text, lemma_trimmed_edges, lower, trimmed};
use crate::xml::{
    attribute_of, document_of, find_below, find_child, is_below, AttributeView, NodeView,
};

verus! {

/// Whether a node is an element with a name and a parent.
pub open spec fn is_child_named(
    nodes: Seq<NodeView>,
    node: int,
    parent: int,
    name: Seq<char>,
) -> bool {
    nodes[node].parent == Some(parent) && nodes[node].element && nodes[node].name == name
}

/// Whether a node is the first child element of another with a name.
pub open spec fn is_first_child(
    nodes: Seq<NodeView>,
    parent: int,
    name: Seq<char>,
    at: int,
) -> bool {
    &&& 0 <= at < nodes.len()
    &&& is_child_named(nodes, at, parent, name)
    &&& forall|j: int| 0 <= j < at ==> !#[trigger] is_child_named(nodes, j, parent, name)
}

/// Whether a node has no child element with a name.
pub open spec fn has_no_child(nodes: Seq<NodeView>, parent: int, name: Seq<char>) -> bool {
    forall|j: int| 0 <= j < nodes.len() ==> !#[trigger] is_child_named(nodes, j, parent, name)
}

/// Whether a node is an element with a name, somewhere below another.
pub open spec fn is_named_below(
    nodes: Seq<NodeView>,
    node: int,
    top: int,
    name: Seq<char>,
) -> bool {
    is_below(nodes, node, top) && nodes[node].element && nodes[node].name == name
}

/// Whether a node is the first element below another with a name.
pub open spec fn is_first_below(
    nodes: Seq<NodeView>,
    top: int,
    name: Seq<char>,
    at: int,
) -> bool {
    &&& 0 <= at < nodes.len()
    &&& is_named_below(nodes, at, top, name)
    &&& forall|j: int| 0 <= j < at ==> !#[trigger] is_named_below(nodes, j, top, name)
}

/// Whether the first plain attribute with a name has a value.
pub open spec fn attribute_is(
    attributes: Seq<AttributeView>,
    name: Seq<char>,
    value: Seq<char>,
) -> bool {
    exists|at: int| #[trigger] is_first_attribute(attributes, name, at) && attributes[at].value
        == value
}

/// Whether an attribute is the first one with a name and without a namespace.
pub open spec fn is_first_attribute(
    attributes: Seq<AttributeView>,
    name: Seq<char>,
    at: int,
) -> bool {
    &&& 0 <= at < attributes.len()
    &&& !attributes[at].namespaced && attributes[at].name == name
    &&& forall|j: int|
        0 <= j < at ==> (#[trigger] attributes[j]).namespaced || attributes[j].name != name
}

/// Whether there is no plain attribute with a name.
pub open spec fn has_no_attribute(attributes: Seq<AttributeView>, name: Seq<char>) -> bool {
    forall|j: int|
        0 <= j < attributes.len() ==> (#[trigger] attributes[j]).namespaced || attributes[j].name
            != name
}

/// Whether the first child element with a name has a text, which is more than
/// white space, and is so much without the white space around it.
pub open spec fn child_says(
    nodes: Seq<NodeView>,
    item: int,
    name: Seq<char>,
    text: Seq<char>,
) -> bool {
    exists|at: int| #[trigger]
        is_first_child(nodes, item, name, at) && node_says(nodes[at], text)
}

/// Whether the first element below with a name has a text, which is more than
/// white space, and is so much without the white space around it.
pub open spec fn some_below_says(
    nodes: Seq<NodeView>,
    item: int,
    name: Seq<char>,
    text: Seq<char>,
) -> bool {
    exists|at: int| #[trigger]
        is_first_below(nodes, item, name, at) && node_says(nodes[at], text)
}

/// Whether a node has a text, which is more than white space, and is so much
/// without the white space around it.
pub open spec fn node_says(node: NodeView, text: Seq<char>) -> bool {
    node.text matches Some(raw) && trimmed(raw) == text && text.len() > 0
}

/// Whether a link leads to a torrent file: its path, in any case of its
/// letters, ends like one, at the end or before a query or a fragment.
pub open spec fn leads_to_torrent(link: Seq<char>) -> bool {
    exists|at: int| #[trigger]
        stands_but_case(link, ".torrent"@, at) && (at + 8 == link.len() || link[at + 8] == '?'
            || link[at + 8] == '#')
}

proof fn lemma_find_child(nodes: Seq<NodeView>, parent: int, name: Seq<char>, from: int)
    requires
        0 <= from <= nodes.len(),
    ensures
        from <= find_child(nodes, parent, name, from) <= nodes.len(),
        find_child(nodes, parent, name, from) < nodes.len() ==> is_child_named(
            nodes,
            find_child(nodes, parent, name, from),
            parent,
            name,
        ),
        forall|j: int|
            from <= j < find_child(nodes, parent, name, from) ==> !#[trigger] is_child_named(
                nodes,
                j,
                parent,
                name,
            ),
    decreases nodes.len() - from,
{
    if from < nodes.len() && !is_child_named(nodes, from, parent, name) {
        lemma_find_child(nodes, parent, name, from + 1);
    }
}

proof fn lemma_first_child(nodes: Seq<NodeView>, parent: int, name: Seq<char>, at: int)
    ensures
        is_first_child(nodes, parent, name, at) <==> 0 <= at < nodes.len() && find_child(
            nodes,
            parent,
            name,
            0,
        ) == at,
        has_no_child(nodes, parent, name) <==> find_child(nodes, parent, name, 0) == nodes.len(),
{
    lemma_find_child(nodes, parent, name, 0);
    let found = find_child(nodes, parent, name, 0);
    if found < nodes.len() {
        assert(is_child_named(nodes, found, parent, name));
    }
}

proof fn lemma_find_below(nodes: Seq<NodeView>, top: int, name: Seq<char>, from: int)
    requires
        0 <= from <= nodes.len(),
    ensures
        from <= find_below(nodes, top, name, from) <= nodes.len(),
        find_below(nodes, top, name, from) < nodes.len() ==> is_named_below(
            nodes,
            find_below(nodes, top, name, from),
            top,
            name,
        ),
        forall|j: int|
            from <= j < find_below(nodes, top, name, from) ==> !#[trigger] is_named_below(
                nodes,
                j,
                top,
                name,
            ),
    decreases nodes.len() - from,
{
    if from < nodes.len() && !is_named_below(nodes, from, top, name) {
        lemma_find_below(nodes, top, name, from + 1);
    }
}

proof fn lemma_first_below(nodes: Seq<NodeView>, top: int, name: Seq<char>, at: int)
    ensures
        is_first_below(nodes, top, name, at) <==> 0 <= at < nodes.len() && find_below(
            nodes,
            top,
            name,
            0,
        ) == at,
{
    lemma_find_below(nodes, top, name, 0);
    let found = find_below(nodes, top, name, 0);
    if found < nodes.len() {
        assert(is_named_below(nodes, found, top, name));
    }
}

proof fn lemma_attribute(attributes: Seq<AttributeView>, name: Seq<char>, from: int) -> (at: int)
    requires
        0 <= from <= attributes.len(),
        forall|j: int|
            0 <= j < from ==> (#[trigger] attributes[j]).namespaced || attributes[j].name != name,
    ensures
        attribute_of(attributes, name, from) is None <==> has_no_attribute(attributes, name),
        attribute_of(attributes, name, from) matches Some(value) ==> is_first_attribute(
            attributes,
            name,
            at,
        ) && attributes[at].value == value,
    decreases attributes.len() - from,
{
    if from >= attributes.len() {
        from
    } else if !attributes[from].namespaced && attributes[from].name == name {
        from
    } else {
        lemma_attribute(attributes, name, from + 1)
    }
}

/// The value of an attribute is that of the first plain one with its name.
pub proof fn lemma_attribute_is(attributes: Seq<AttributeView>, name: Seq<char>, value: Seq<char>)
    ensures
        attribute_is(attributes, name, value) <==> attribute_of(attributes, name, 0) == Some(value),
        has_no_attribute(attributes, name) <==> attribute_of(attributes, name, 0) is None,
{
    let at = lemma_attribute(attributes, name, 0);
    if attribute_is(attributes, name, value) {
        let other = choose|other: int| #[trigger]
            is_first_attribute(attributes, name, other) && attributes[other].value == value;
        if attribute_of(attributes, name, 0) is Some {
            if at < other {
                assert(attributes[at].namespaced || attributes[at].name != name);
            }
            if other < at {
                assert(attributes[other].namespaced || attributes[other].name != name);
            }
        } else {
            assert(attributes[other].namespaced || attributes[other].name != name);
        }
    }
}

proof fn lemma_child_says(nodes: Seq<NodeView>, item: int, name: Seq<char>, text: Seq<char>)
    ensures
        child_says(nodes, item, name, text) <==> child_text_of(nodes, item, name)
            == Some(text),
{
    let found = find_child(nodes, item, name, 0);
    lemma_first_child(nodes, item, name, found);
    if child_says(nodes, item, name, text) {
        let at = choose|at: int| #[trigger]
            is_first_child(nodes, item, name, at) && node_says(nodes[at], text);
        lemma_first_child(nodes, item, name, at);
    }
    if child_text_of(nodes, item, name) == Some(text) {
        lemma_find_child(nodes, item, name, 0);
        assert(is_first_child(nodes, item, name, found));
    }
}

proof fn lemma_below_says(nodes: Seq<NodeView>, item: int, name: Seq<char>, text: Seq<char>)
    ensures
        some_below_says(nodes, item, name, text) <==> descendant_text_of(
            nodes,
            item,
            name,
        ) == Some(text),
{
    let found = find_below(nodes, item, name, 0);
    lemma_first_below(nodes, item, name, found);
    if some_below_says(nodes, item, name, text) {
        let at = choose|at: int| #[trigger]
            is_first_below(nodes, item, name, at) && node_says(nodes[at], text);
        lemma_first_below(nodes, item, name, at);
    }
    if descendant_text_of(nodes, item, name) == Some(text) {
        lemma_find_below(nodes, item, name, 0);
        assert(is_first_below(nodes, item, name, found));
    }
}

/// What stands below an element is its children and what stands below those.
pub proof fn law_below_is_at_any_depth(nodes: Seq<NodeView>, node: int, parent: int, top: int)
    requires
        0 <= parent < node < nodes.len(),
        nodes[node].parent == Some(parent),
    ensures
        parent == top ==> is_below(nodes, node, top),
        parent != top ==> is_below(nodes, node, top) == is_below(nodes, parent, top),
{
}

/// The torrent URL of an item is that of its enclosure, whatever else the item
/// has: the `url` attribute of the first `enclosure` element, without the
/// white space around it.
pub proof fn law_enclosure_gives_the_torrent_url(
    nodes: Seq<NodeView>,
    item: int,
    enclosure: int,
    url: Seq<char>,
)
    requires
        is_first_child(nodes, item, "enclosure"@, enclosure),
        attribute_is(nodes[enclosure].attributes, "url"@, url),
    ensures
        item_of(nodes, item) matches Some(parsed) ==> parsed.enclosure_url == trimmed(url),
        trimmed(url).len() > 0 ==> item_of(nodes, item) is Some,
{
    lemma_first_child(nodes, item, "enclosure"@, enclosure);
    lemma_attribute_is(nodes[enclosure].attributes, "url"@, url);
}

/// Whether no enclosure of an item gives a URL.
pub open spec fn has_no_enclosure_url(nodes: Seq<NodeView>, item: int) -> bool {
    ||| has_no_child(nodes, item, "enclosure"@)
    ||| exists|at: int| #[trigger]
        is_first_child(nodes, item, "enclosure"@, at) && has_no_attribute(
            nodes[at].attributes,
            "url"@,
        )
}

proof fn lemma_no_enclosure_url(nodes: Seq<NodeView>, item: int)
    requires
        has_no_enclosure_url(nodes, item),
    ensures
        child_attribute_of(nodes, item, "enclosure"@, "url"@) is None,
{
    let found = find_child(nodes, item, "enclosure"@, 0);
    lemma_first_child(nodes, item, "enclosure"@, found);
    if !has_no_child(nodes, item, "enclosure"@) {
        let at = choose|at: int| #[trigger]
            is_first_child(nodes, item, "enclosure"@, at) && has_no_attribute(
                nodes[at].attributes,
                "url"@,
            );
        lemma_first_child(nodes, item, "enclosure"@, at);
        lemma_attribute_is(nodes[at].attributes, "url"@, Seq::empty());
    }
}

/// Without an enclosure that gives a URL, the torrent URL of an item is that of
/// its first `torrent` element: the `url` attribute, else the text.
pub proof fn law_torrent_element_gives_the_torrent_url(
    nodes: Seq<NodeView>,
    item: int,
    torrent: int,
    url: Seq<char>,
)
    requires
        has_no_enclosure_url(nodes, item),
        is_first_child(nodes, item, "torrent"@, torrent),
    ensures
        attribute_is(nodes[torrent].attributes, "url"@, url) ==> (item_of(nodes, item) matches Some(
            parsed,
        ) ==> parsed.enclosure_url == trimmed(url)),
        has_no_attribute(nodes[torrent].attributes, "url"@) ==> (item_of(
            nodes,
            item,
        ) matches Some(parsed) ==> match nodes[torrent].text {
            Some(text) => parsed.enclosure_url == trimmed(text),
            None => parsed.enclosure_url.len() == 0,
        }),
{
    lemma_no_enclosure_url(nodes, item);
    lemma_first_child(nodes, item, "torrent"@, torrent);
    lemma_attribute_is(nodes[torrent].attributes, "url"@, url);
    if nodes[torrent].text is None {
        assert(trimmed(Seq::<char>::empty()) =~= Seq::<char>::empty());
    }
}

proof fn lemma_torrent_link(link: Seq<char>)
    ensures
        is_torrent_link(link) <==> leads_to_torrent(link),
{
    reveal_strlit(".torrent");
    reveal_strlit(".torrent?");
    reveal_strlit(".torrent#");
    let plain = ".torrent"@;
    let query = ".torrent?"@;
    let fragment = ".torrent#"@;
    lemma_lower_word(plain);
    lemma_lower_word(query);
    lemma_lower_word(fragment);
    law_words_are_found_in_any_case(link, query);
    law_words_are_found_in_any_case(link, fragment);
    assert(query.take(8) =~= plain);
    assert(fragment.take(8) =~= plain);
    if plain.is_suffix_of(lower(link)) {
        let at = link.len() - 8;
        let part = link.subrange(at, at + 8);
        assert(lower(part) =~= lower(link).subrange(at, at + 8));
        assert(lower(link).subrange(at, at + 8) =~= lower(link).subrange(
            lower(link).len() - plain.len(),
            lower(link).len() as int,
        ));
        lemma_lower_is(part, plain);
        assert(stands_but_case(link, plain, at));
    }
    if contains_text(lower(link), query) {
        let at = choose|at: int| stands_but_case(link, query, at);
        lemma_longer(link, query, at, '?');
    }
    if contains_text(lower(link), fragment) {
        let at = choose|at: int| stands_but_case(link, fragment, at);
        lemma_longer(link, fragment, at, '#');
    }
    if leads_to_torrent(link) {
        let at = choose|at: int| #[trigger]
            stands_but_case(link, plain, at) && (at + 8 == link.len() || link[at + 8] == '?'
                || link[at + 8] == '#');
        let part = link.subrange(at, at + 8);
        if at + 8 == link.len() {
            assert(lower(part) =~= lower(link).subrange(at, at + 8));
            lemma_lower_is(part, plain);
            assert(plain.is_suffix_of(lower(link)));
        } else {
            let word = if link[at + 8] == '?' {
                query
            } else {
                fragment
            };
            let longer = link.subrange(at, at + 9);
            assert forall|i: int| 0 <= i < 9 implies same_letter(
                #[trigger] longer[i],
                word[i],
            ) by {
                if i < 8 {
                    assert(longer[i] == part[i]);
                    assert(word[i] == plain[i]);
                    assert(same_letter(part[i], plain[i]));
                }
            }
            assert(stands_but_case(link, word, at));
        }
    }
}

proof fn lemma_longer(link: Seq<char>, word: Seq<char>, at: int, mark: char)
    requires
        stands_but_case(link, word, at),
        word.len() == 9,
        word.take(8) == ".torrent"@,
        word[8] == mark,
        mark == '?' || mark == '#',
    ensures
        leads_to_torrent(link),
{
    reveal_strlit(".torrent");
    let plain = ".torrent"@;
    let longer = link.subrange(at, at + 9);
    let part = link.subrange(at, at + 8);
    assert forall|i: int| 0 <= i < 8 implies same_letter(
        #[trigger] part[i],
        plain[i],
    ) by {
        assert(longer[i] == part[i]);
        assert(word.take(8)[i] == word[i]);
        assert(same_letter(longer[i], word[i]));
    }
    assert(same_but_case(part, plain));
    assert(same_letter(longer[8], word[8]));
    assert(link[at + 8] == longer[8]);
    assert(stands_but_case(link, plain, at));
}

/// Without an enclosure that gives a URL and without a `torrent` element, the
/// torrent URL of an item is its link, if that leads to a torrent file; else it
/// has none.
pub proof fn law_link_may_be_the_torrent_url(nodes: Seq<NodeView>, item: int)
    requires
        has_no_enclosure_url(nodes, item),
        has_no_child(nodes, item, "torrent"@),
    ensures
        item_of(nodes, item) matches Some(parsed) ==> {
            &&& leads_to_torrent(parsed.link) ==> parsed.enclosure_url == parsed.link
            &&& !leads_to_torrent(parsed.link) ==> parsed.enclosure_url.len() == 0
        },
{
    lemma_no_enclosure_url(nodes, item);
    lemma_first_child(nodes, item, "torrent"@, 0);
    if let Some(parsed) = item_of(nodes, item) {
        lemma_torrent_link(parsed.link);
    }
}

/// Title, link and identifier of an item are what its first elements of these
/// names say. Where an element says nothing, there is none, but for the title:
/// it is the key then.
pub proof fn law_item_has_what_its_elements_say(
    nodes: Seq<NodeView>,
    item: int,
    parsed: ParsedView,
    text: Seq<char>,
)
    requires
        item_of(nodes, item) == Some(parsed),
    ensures
        child_says(nodes, item, "title"@, text) ==> parsed.title == text,
        child_says(nodes, item, "link"@, text) ==> parsed.link == text,
        child_says(nodes, item, "guid"@, text) ==> parsed.guid == text,
        parsed.link.len() > 0 ==> child_says(nodes, item, "link"@, parsed.link),
        parsed.guid.len() > 0 ==> child_says(nodes, item, "guid"@, parsed.guid),
        child_says(nodes, item, "title"@, parsed.title) || parsed.title == parsed.unique_key,
{
    lemma_child_says(nodes, item, "title"@, text);
    lemma_child_says(nodes, item, "link"@, text);
    lemma_child_says(nodes, item, "guid"@, text);
    lemma_child_says(nodes, item, "link"@, parsed.link);
    lemma_child_says(nodes, item, "guid"@, parsed.guid);
    lemma_child_says(nodes, item, "title"@, parsed.title);
    lemma_trimmed_edges(text);
}

/// The date of an item is what its own `pubDate` says, else what the first one
/// below it says.
pub proof fn law_item_has_its_date(
    nodes: Seq<NodeView>,
    item: int,
    parsed: ParsedView,
    text: Seq<char>,
)
    requires
        item_of(nodes, item) == Some(parsed),
    ensures
        child_says(nodes, item, "pubDate"@, text) ==> parsed.pub_date == text,
        some_below_says(nodes, item, "pubDate"@, text) && !(exists|other: Seq<char>|
            child_says(nodes, item, "pubDate"@, other)) ==> parsed.pub_date == text,
        parsed.pub_date.len() > 0 ==> child_says(nodes, item, "pubDate"@, parsed.pub_date)
            || some_below_says(nodes, item, "pubDate"@, parsed.pub_date),
{
    lemma_child_says(nodes, item, "pubDate"@, text);
    lemma_below_says(nodes, item, "pubDate"@, text);
    lemma_child_says(nodes, item, "pubDate"@, parsed.pub_date);
    lemma_below_says(nodes, item, "pubDate"@, parsed.pub_date);
    if let Some(date) = child_text_of(nodes, item, "pubDate"@) {
        lemma_child_says(nodes, item, "pubDate"@, date);
    }
}

/// Whether nothing below an item says its size, or what says it is no number.
pub open spec fn says_no_size(nodes: Seq<NodeView>, item: int) -> bool {
    forall|text: Seq<char>| #[trigger]
        some_below_says(nodes, item, "contentLength"@, text) ==> decimal_value(
            encode_utf8(text),
            u64::MAX as nat,
        ) is None
}

/// The size of an item is the number that the first `contentLength` below it
/// says, else the one that the `length` of its enclosure gives.
pub proof fn law_item_has_its_size(
    nodes: Seq<NodeView>,
    item: int,
    parsed: ParsedView,
    text: Seq<char>,
    enclosure: int,
    size: u64,
)
    requires
        item_of(nodes, item) == Some(parsed),
    ensures
        some_below_says(nodes, item, "contentLength"@, text) && decimal_value(
            encode_utf8(text),
            u64::MAX as nat,
        ) == Some(size as nat) ==> parsed.total_bytes == Some(size),
        says_no_size(nodes, item) && is_first_child(nodes, item, "enclosure"@, enclosure)
            && attribute_is(
            nodes[enclosure].attributes,
            "length"@,
            text,
        ) && decimal_value(encode_utf8(text), u64::MAX as nat) == Some(size as nat)
            ==> parsed.total_bytes == Some(size),
        says_no_size(nodes, item) && has_no_child(nodes, item, "enclosure"@)
            ==> parsed.total_bytes is None,
{
    lemma_below_says(nodes, item, "contentLength"@, text);
    lemma_first_child(nodes, item, "enclosure"@, enclosure);
    if 0 <= enclosure < nodes.len() {
        lemma_attribute_is(nodes[enclosure].attributes, "length"@, text);
    }
    if let Some(other) = descendant_text_of(nodes, item, "contentLength"@) {
        lemma_below_says(nodes, item, "contentLength"@, other);
    }
}

/// The key of an item is its identifier, else its torrent URL, else its link,
/// else its title; and what has none of these is no item.
pub proof fn law_item_has_its_key(
    nodes: Seq<NodeView>,
    item: int,
    parsed: ParsedView,
    text: Seq<char>,
)
    ensures
        item_of(nodes, item) == Some(parsed) ==> {
            &&& parsed.unique_key.len() > 0
            &&& parsed.guid.len() > 0 ==> parsed.unique_key == parsed.guid
            &&& parsed.guid.len() == 0 && parsed.enclosure_url.len() > 0 ==> parsed.unique_key
                == parsed.enclosure_url
            &&& parsed.guid.len() == 0 && parsed.enclosure_url.len() == 0 && parsed.link.len() > 0
                ==> parsed.unique_key == parsed.link
            &&& parsed.guid.len() == 0 && parsed.enclosure_url.len() == 0 && parsed.link.len() == 0
                ==> parsed.unique_key == parsed.title
        },
        child_says(nodes, item, "guid"@, text) || child_says(nodes, item, "link"@, text)
            || child_says(nodes, item, "title"@, text) ==> item_of(nodes, item) is Some,
{
    lemma_child_says(nodes, item, "title"@, text);
    lemma_child_says(nodes, item, "link"@, text);
    lemma_child_says(nodes, item, "guid"@, text);
}

/// Whether places are those of the items of a channel, in the order of the
/// document: the children named `item` from which an item can be read.
pub open spec fn are_item_places(
    nodes: Seq<NodeView>,
    channel: int,
    from: int,
    places: Seq<int>,
) -> bool {
    &&& forall|i: int|
        0 <= i < places.len() ==> from <= #[trigger] places[i] < nodes.len() && is_child_named(
            nodes,
            places[i],
            channel,
            "item"@,
        ) && item_of(nodes, places[i]) is Some
    &&& forall|i: int, j: int| 0 <= i < j < places.len() ==> places[i] < places[j]
    &&& forall|node: int|
        from <= node < nodes.len() && #[trigger] is_child_named(nodes, node, channel, "item"@)
            && item_of(nodes, node) is Some ==> places.contains(node)
}

proof fn lemma_item_places(nodes: Seq<NodeView>, channel: int, from: int) -> (places: Seq<int>)
    requires
        0 <= from <= nodes.len(),
    ensures
        are_item_places(nodes, channel, from, places),
        items_from(nodes, channel, from).len() == places.len(),
        forall|i: int|
            0 <= i < places.len() ==> item_of(nodes, #[trigger] places[i]) == Some(
                items_from(nodes, channel, from)[i],
            ),
    decreases nodes.len() - from,
{
    if from >= nodes.len() {
        Seq::empty()
    } else {
        let rest = lemma_item_places(nodes, channel, from + 1);
        if is_child_named(nodes, from, channel, "item"@) && item_of(nodes, from) is Some {
            let places = seq![from] + rest;
            assert forall|node: int|
                from <= node < nodes.len() && #[trigger] is_child_named(
                    nodes,
                    node,
                    channel,
                    "item"@,
                ) && item_of(nodes, node) is Some implies places.contains(node) by {
                if node == from {
                    assert(places[0] == from);
                } else {
                    assert(rest.contains(node));
                    let i = choose|i: int| 0 <= i < rest.len() && rest[i] == node;
                    assert(places[i + 1] == node);
                }
            }
            assert forall|i: int| 0 <= i < places.len() implies item_of(
                nodes,
                #[trigger] places[i],
            ) == Some(items_from(nodes, channel, from)[i]) by {
                if i > 0 {
                    assert(places[i] == rest[i - 1]);
                }
            }
            assert forall|i: int| 0 <= i < places.len() implies from <= #[trigger] places[i]
                < nodes.len() && is_child_named(nodes, places[i], channel, "item"@) && item_of(
                nodes,
                places[i],
            ) is Some by {
                if i > 0 {
                    assert(places[i] == rest[i - 1]);
                }
            }
            assert forall|i: int, j: int| 0 <= i < j < places.len() implies places[i]
                < places[j] by {
                if i > 0 {
                    assert(rest[i - 1] < rest[j - 1]);
                } else {
                    assert(places[j] == rest[j - 1]);
                }
            }
            places
        } else {
            rest
        }
    }
}

proof fn lemma_find_element(nodes: Seq<NodeView>, name: Seq<char>, from: int)
    requires
        0 <= from <= nodes.len(),
    ensures
        from <= find_element(nodes, name, from) <= nodes.len(),
        find_element(nodes, name, from) < nodes.len() ==> nodes[find_element(
            nodes,
            name,
            from,
        )].element && nodes[find_element(nodes, name, from)].name == name,
        forall|j: int|
            from <= j < find_element(nodes, name, from) ==> !((#[trigger] nodes[j]).element
                && nodes[j].name == name),
    decreases nodes.len() - from,
{
    if from < nodes.len() && !(nodes[from].element && nodes[from].name == name) {
        lemma_find_element(nodes, name, from + 1);
    }
}

/// A feed is what a document has in its first `channel` element: an item for
/// each child named `item` from which one can be read, in the same order. A
/// document without a `channel` is no feed, and what cannot be read is no
/// document.
pub proof fn law_feed_has_the_items_of_its_channel(nodes: Seq<NodeView>, channel: int)
    ensures
        feed_of(None) == Err::<Seq<ParsedView>, _>("返回内容不是有效 XML"@),
        (forall|j: int|
            0 <= j < nodes.len() ==> !((#[trigger] nodes[j]).element && nodes[j].name
                == "channel"@)) ==> feed_of(Some(nodes)) == Err::<Seq<ParsedView>, _>(
            "返回内容不是 RSS 订阅"@,
        ),
        0 <= channel < nodes.len() && nodes[channel].element && nodes[channel].name == "channel"@
            && (forall|j: int|
            0 <= j < channel ==> !((#[trigger] nodes[j]).element && nodes[j].name == "channel"@))
            ==> (feed_of(Some(nodes)) matches Ok(items) && exists|places: Seq<int>| #[trigger]
            are_item_places(nodes, channel, 0, places) && items.len() == places.len() && (forall|
            i: int,
        |
            0 <= i < places.len() ==> item_of(nodes, #[trigger] places[i]) == Some(items[i]))),
{
    lemma_find_element(nodes, "channel"@, 0);
    let found = find_element(nodes, "channel"@, 0);
    if found < nodes.len() {
        let places = lemma_item_places(nodes, found, 0);
        assert(are_item_places(nodes, found, 0, places));
    }
}

/// A feed can be used if it has items and at least one of them a torrent URL.
/// What is wrong with a feed that cannot be read is told as it is.
pub proof fn law_feed_is_usable_with_a_torrent(items: Seq<ParsedView>, error: Seq<char>, at: int)
    ensures
        usable_feed(Err(error)) == Err::<Seq<ParsedView>, _>(error),
        items.len() == 0 ==> usable_feed(Ok(items)) == Err::<Seq<ParsedView>, _>(
            "RSS 中没有可识别的订阅条目"@,
        ),
        0 <= at < items.len() && items[at].enclosure_url.len() > 0 ==> usable_feed(Ok(items))
            == Ok::<_, Seq<char>>(items),
        items.len() > 0 && (forall|i: int|
            0 <= i < items.len() ==> (#[trigger] items[i]).enclosure_url.len() == 0)
            ==> usable_feed(Ok(items)) == Err::<Seq<ParsedView>, _>(
            "RSS 中没有可下载的 torrent 条目"@,
        ),
{
}

/// The feed in a response is that of the text in it, which has to be UTF-8.
pub proof fn law_response_is_read_as_text(text: Seq<char>, bytes: Seq<u8>)
    ensures
        response_feed(encode_utf8(text)) == feed_of(document_of(text)),
        !valid_utf8(bytes) ==> response_feed(bytes) == Err::<Seq<ParsedView>, _>(
            "RSS response is not valid UTF-8: "@ + utf8_fault_of(bytes),
        ),
{
    encode_utf8_decode_utf8(text);
    encode_utf8_valid_utf8(text);
}

} // verus!
