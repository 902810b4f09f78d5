//! Reading the feed: the items of an RSS document.

use vstd::prelude::*;
use vstd::string::*;
use vstd::utf8::*;

use crate::models::{parsed_view, ParsedRssItem, ParsedView};
use crate::number::{decimal_value, parse_decimal};
use crate::outside::{text_from_utf8, utf8_fault_of};
use crate::text::{
    contains, contains_text, ends_with, joined, keep_text, kept_text, lower, optional, to_lower, trim,
    trimmed,
};
use crate::xml::{
    attribute, attribute_of, child_of, document_of, find_below, find_child, first_below,
    first_child, is_child, is_named, node_named, nodes_view, read_document, NodeView, XmlNode,
};

verus! {

/// The text of the first child element with a name.
pub open spec fn child_text_of(nodes: Seq<NodeView>, item: int, name: Seq<char>) -> Option<
    Seq<char>,
> {
    let child = find_child(nodes, item, name, 0);
    if child < nodes.len() {
        kept_text(nodes[child].text)
    } else {
        None
    }
}

/// The text of the first element below a node with a name.
pub open spec fn descendant_text_of(nodes: Seq<NodeView>, item: int, name: Seq<char>) -> Option<
    Seq<char>,
> {
    let node = find_below(nodes, item, name, 0);
    if node < nodes.len() {
        kept_text(nodes[node].text)
    } else {
        None
    }
}

/// A text, or an empty one where there is none.
pub open spec fn or_empty(text: Option<Seq<char>>) -> Seq<char> {
    match text {
        Some(text) => text,
        None => Seq::empty(),
    }
}

/// The number of bytes that a text gives.
pub open spec fn size_in(text: Option<Seq<char>>) -> Option<u64> {
    match text {
        Some(text) => match decimal_value(encode_utf8(text), u64::MAX as nat) {
            Some(size) => Some(size as u64),
            None => None,
        },
        None => None,
    }
}

/// The attribute of the first child element with a name.
pub open spec fn child_attribute_of(
    nodes: Seq<NodeView>,
    item: int,
    child: Seq<char>,
    name: Seq<char>,
) -> Option<Seq<char>> {
    let child = find_child(nodes, item, child, 0);
    if child < nodes.len() {
        attribute_of(nodes[child].attributes, name, 0)
    } else {
        None
    }
}

/// Whether a link leads to a torrent file.
pub open spec fn is_torrent_link(link: Seq<char>) -> bool {
    ||| ".torrent"@.is_suffix_of(lower(link))
    ||| contains_text(lower(link), ".torrent?"@)
    ||| contains_text(lower(link), ".torrent#"@)
}

/// Where the torrent file of an item is: the enclosure's URL before that of a
/// `torrent` element, and the item's link if it leads to such a file.
pub open spec fn enclosure_url_of(nodes: Seq<NodeView>, item: int, link: Seq<char>) -> Seq<char> {
    let torrent = find_child(nodes, item, "torrent"@, 0);
    match child_attribute_of(nodes, item, "enclosure"@, "url"@) {
        Some(url) => trimmed(url),
        None => if torrent < nodes.len() {
            match attribute_of(nodes[torrent].attributes, "url"@, 0) {
                Some(url) => trimmed(url),
                None => trimmed(or_empty(nodes[torrent].text)),
            }
        } else if is_torrent_link(link) {
            link
        } else {
            Seq::empty()
        },
    }
}

/// The first text that is not empty.
pub open spec fn first_given(
    first: Seq<char>,
    second: Seq<char>,
    third: Seq<char>,
    fourth: Seq<char>,
) -> Seq<char> {
    if first.len() > 0 {
        first
    } else if second.len() > 0 {
        second
    } else if third.len() > 0 {
        third
    } else {
        fourth
    }
}

/// An item of the feed. An item without an identifier, a torrent file, a link
/// and a title is none.
pub open spec fn item_of(nodes: Seq<NodeView>, item: int) -> Option<ParsedView> {
    let title = or_empty(child_text_of(nodes, item, "title"@));
    let link = or_empty(child_text_of(nodes, item, "link"@));
    let guid = or_empty(child_text_of(nodes, item, "guid"@));
    let pub_date = match child_text_of(nodes, item, "pubDate"@) {
        Some(date) => date,
        None => or_empty(descendant_text_of(nodes, item, "pubDate"@)),
    };
    let total_bytes = match size_in(descendant_text_of(nodes, item, "contentLength"@)) {
        Some(size) => Some(size),
        None => size_in(child_attribute_of(nodes, item, "enclosure"@, "length"@)),
    };
    let enclosure_url = enclosure_url_of(nodes, item, link);
    let unique_key = first_given(guid, enclosure_url, link, title);
    if unique_key.len() == 0 {
        None
    } else {
        Some(
            ParsedView {
                title: if title.len() == 0 {
                    unique_key
                } else {
                    title
                },
                link,
                guid,
                pub_date,
                total_bytes,
                enclosure_url,
                unique_key,
            },
        )
    }
}

/// The items below a channel, from a node on.
pub open spec fn items_from(nodes: Seq<NodeView>, channel: int, from: int) -> Seq<ParsedView>
    decreases nodes.len() - from,
{
    if from < 0 || from >= nodes.len() {
        Seq::empty()
    } else {
        let rest = items_from(nodes, channel, from + 1);
        if is_child(nodes, from, channel) && is_named(nodes[from], "item"@) {
            match item_of(nodes, from) {
                Some(item) => seq![item] + rest,
                None => rest,
            }
        } else {
            rest
        }
    }
}

/// The first element with a name, from a node on, or the number of nodes.
pub open spec fn find_element(nodes: Seq<NodeView>, name: Seq<char>, from: int) -> int
    decreases nodes.len() - from,
{
    if from < 0 || from >= nodes.len() {
        nodes.len() as int
    } else if is_named(nodes[from], name) {
        from
    } else {
        find_element(nodes, name, from + 1)
    }
}

/// The items of a feed, or why a document is none.
pub open spec fn feed_of(nodes: Option<Seq<NodeView>>) -> Result<Seq<ParsedView>, Seq<char>> {
    match nodes {
        None => Err("返回内容不是有效 XML"@),
        Some(nodes) => {
            let channel = find_element(nodes, "channel"@, 0);
            if channel < nodes.len() {
                Ok(items_from(nodes, channel, 0))
            } else {
                Err("返回内容不是 RSS 订阅"@)
            }
        },
    }
}

/// The contents of parsed items, or the error.
pub open spec fn feed_view(r: Result<Vec<ParsedRssItem>, String>) -> Result<
    Seq<ParsedView>,
    Seq<char>,
> {
    match r {
        Ok(items) => Ok(parsed_view(items@)),
        Err(message) => Err(message@),
    }
}

/// Whether a feed has an item with a torrent file.
pub open spec fn has_torrent(items: Seq<ParsedView>) -> bool {
    exists|i: int| 0 <= i < items.len() && (#[trigger] items[i]).enclosure_url.len() > 0
}

/// A feed that something can be downloaded from, or why it is none.
pub open spec fn usable_feed(feed: Result<Seq<ParsedView>, Seq<char>>) -> Result<
    Seq<ParsedView>,
    Seq<char>,
> {
    match feed {
        Err(message) => Err(message),
        Ok(items) => if items.len() == 0 {
            Err("RSS 中没有可识别的订阅条目"@)
        } else if !has_torrent(items) {
            Err("RSS 中没有可下载的 torrent 条目"@)
        } else {
            Ok(items)
        },
    }
}

/// The feed in the bytes of a response.
pub open spec fn response_feed(bytes: Seq<u8>) -> Result<Seq<ParsedView>, Seq<char>> {
    if valid_utf8(bytes) {
        feed_of(document_of(decode_utf8(bytes)))
    } else {
        Err("RSS response is not valid UTF-8: "@ + utf8_fault_of(bytes))
    }
}

fn given_or_empty(text: Option<String>) -> (r: String)
    ensures
        r@ == or_empty(optional(text)),
{
    match text {
        Some(text) => text,
        None => String::new(),
    }
}

fn read_size(text: &Option<String>) -> (r: Option<u64>)
    ensures
        r == size_in(optional(*text)),
{
    match text {
        Some(text) => parse_decimal(text.as_str().as_bytes(), u64::MAX),
        None => None,
    }
}

/// The text of the first child element with a name.
pub fn child_text(nodes: &Vec<XmlNode>, item: usize, name: &str) -> (r: Option<String>)
    ensures
        optional(r) == child_text_of(nodes_view(nodes@), item as int, name@),
{
    match first_child(nodes, item, name) {
        Some(child) => keep_text(&nodes[child].text),
        None => None,
    }
}

/// The text of the first element below a node with a name.
pub fn descendant_text(nodes: &Vec<XmlNode>, item: usize, name: &str) -> (r: Option<String>)
    ensures
        optional(r) == descendant_text_of(nodes_view(nodes@), item as int, name@),
{
    match first_below(nodes, item, name) {
        Some(node) => keep_text(&nodes[node].text),
        None => None,
    }
}

fn child_attribute(nodes: &Vec<XmlNode>, item: usize, child: &str, name: &str) -> (r: Option<String>)
    ensures
        optional(r) == child_attribute_of(nodes_view(nodes@), item as int, child@, name@),
{
    match first_child(nodes, item, child) {
        Some(child) => attribute(&nodes[child], name),
        None => None,
    }
}

/// The size that the enclosure of an item gives.
pub fn enclosure_length(nodes: &Vec<XmlNode>, item: usize) -> (r: Option<u64>)
    ensures
        r == size_in(
            child_attribute_of(nodes_view(nodes@), item as int, "enclosure"@, "length"@),
        ),
{
    read_size(&child_attribute(nodes, item, "enclosure", "length"))
}

/// Where the torrent file of an item is.
pub fn extract_enclosure_url(nodes: &Vec<XmlNode>, item: usize, link: &str) -> (r: String)
    ensures
        r@ == enclosure_url_of(nodes_view(nodes@), item as int, link@),
{
    if let Some(url) = child_attribute(nodes, item, "enclosure", "url") {
        return trim(&url);
    }
    if let Some(torrent) = first_child(nodes, item, "torrent") {
        return match attribute(&nodes[torrent], "url") {
            Some(url) => trim(&url),
            None => match &nodes[torrent].text {
                Some(text) => trim(text),
                None => String::new(),
            },
        };
    }
    let lowered = to_lower(link);
    if ends_with(&lowered, ".torrent") || contains(&lowered, ".torrent?") || contains(
        &lowered,
        ".torrent#",
    ) {
        link.to_string()
    } else {
        String::new()
    }
}

/// Reads an item of the feed.
pub fn normalize_item(nodes: &Vec<XmlNode>, item: usize) -> (r: Option<ParsedRssItem>)
    ensures
        match r {
            Some(parsed) => item_of(nodes_view(nodes@), item as int) == Some(parsed@),
            None => item_of(nodes_view(nodes@), item as int) is None,
        },
{
    let title = given_or_empty(child_text(nodes, item, "title"));
    let link = given_or_empty(child_text(nodes, item, "link"));
    let guid = given_or_empty(child_text(nodes, item, "guid"));
    let pub_date = match child_text(nodes, item, "pubDate") {
        Some(date) => date,
        None => given_or_empty(descendant_text(nodes, item, "pubDate")),
    };
    let total_bytes = match read_size(&descendant_text(nodes, item, "contentLength")) {
        Some(size) => Some(size),
        None => enclosure_length(nodes, item),
    };
    let enclosure_url = extract_enclosure_url(nodes, item, &link);
    let unique_key = if !guid.as_str().is_empty() {
        guid.clone()
    } else if !enclosure_url.as_str().is_empty() {
        enclosure_url.clone()
    } else if !link.as_str().is_empty() {
        link.clone()
    } else {
        title.clone()
    };
    if unique_key.as_str().is_empty() {
        return None;
    }
    let title = if title.as_str().is_empty() {
        unique_key.clone()
    } else {
        title
    };
    Some(ParsedRssItem { title, link, guid, pub_date, total_bytes, enclosure_url, unique_key })
}

fn channel_of(nodes: &Vec<XmlNode>) -> (r: Option<usize>)
    ensures
        match r {
            Some(channel) => channel < nodes@.len() && find_element(
                nodes_view(nodes@),
                "channel"@,
                0,
            ) == channel,
            None => find_element(nodes_view(nodes@), "channel"@, 0) == nodes@.len(),
        },
{
    let mut i: usize = 0;
    while i < nodes.len()
        invariant
            i <= nodes@.len(),
            find_element(nodes_view(nodes@), "channel"@, 0) == find_element(
                nodes_view(nodes@),
                "channel"@,
                i as int,
            ),
        decreases nodes@.len() - i,
    {
        if node_named(nodes, i, "channel") {
            return Some(i);
        }
        i += 1;
    }
    None
}

/// Reads the items of a feed from the nodes of its document, where the
/// document could be read.
pub fn read_feed(nodes: &Option<Vec<XmlNode>>) -> (r: Result<Vec<ParsedRssItem>, String>)
    ensures
        feed_view(r) == feed_of(
            match nodes {
                Some(nodes) => Some(nodes_view(nodes@)),
                None => None,
            },
        ),
{
    let nodes = match nodes {
        Some(nodes) => nodes,
        None => {
            return Err("返回内容不是有效 XML".to_string());
        },
    };
    let channel = match channel_of(nodes) {
        Some(channel) => channel,
        None => {
            return Err("返回内容不是 RSS 订阅".to_string());
        },
    };
    let ghost view = nodes_view(nodes@);
    let mut items: Vec<ParsedRssItem> = Vec::new();
    let mut i: usize = 0;
    assert(parsed_view(items@) + items_from(view, channel as int, 0) =~= items_from(
        view,
        channel as int,
        0,
    ));
    while i < nodes.len()
        invariant
            i <= nodes@.len(),
            view == nodes_view(nodes@),
            parsed_view(items@) + items_from(view, channel as int, i as int) == items_from(
                view,
                channel as int,
                0,
            ),
        decreases nodes@.len() - i,
    {
        if child_of(nodes, i, channel) && node_named(nodes, i, "item") {
            if let Some(item) = normalize_item(nodes, i) {
                let ghost before = items@;
                items.push(item);
                assert(parsed_view(items@) =~= parsed_view(before).push(item@));
                assert(parsed_view(before) + (seq![item@] + items_from(view, channel as int, i + 1))
                    =~= parsed_view(items@) + items_from(view, channel as int, i + 1));
            }
        }
        i += 1;
    }
    assert(parsed_view(items@) + items_from(view, channel as int, i as int) =~= parsed_view(items@));
    Ok(items)
}

/// Reads the items of a feed.
pub fn parse(xml: &str) -> (r: Result<Vec<ParsedRssItem>, String>)
    ensures
        feed_view(r) == feed_of(document_of(xml@)),
{
    read_feed(&read_document(xml))
}

/// Reads the feed in the bytes of a response.
pub fn parse_response(bytes: &[u8]) -> (r: Result<Vec<ParsedRssItem>, String>)
    ensures
        feed_view(r) == response_feed(bytes@),
{
    match text_from_utf8(bytes) {
        Ok(text) => parse(&text),
        Err(fault) => Err(joined("RSS response is not valid UTF-8: ", &fault)),
    }
}

/// Checks that something can be downloaded from a feed.
pub fn validate_items(items: Vec<ParsedRssItem>) -> (r: Result<Vec<ParsedRssItem>, String>)
    ensures
        feed_view(r) == usable_feed(Ok(parsed_view(items@))),
{
    if items.len() == 0 {
        return Err("RSS 中没有可识别的订阅条目".to_string());
    }
    let mut i: usize = 0;
    while i < items.len()
        invariant
            i <= items@.len(),
            items@.len() > 0,
            forall|j: int| 0 <= j < i ==> (#[trigger] parsed_view(items@)[j]).enclosure_url.len() == 0,
        decreases items@.len() - i,
    {
        if !items[i].enclosure_url.as_str().is_empty() {
            assert(parsed_view(items@)[i as int].enclosure_url.len() > 0);
            return Ok(items);
        }
        i += 1;
    }
    Err("RSS 中没有可下载的 torrent 条目".to_string())
}

/// Checks that a document is a feed that something can be downloaded from.
pub fn validate_xml(xml: &str) -> (r: Result<(), String>)
    ensures
        match r {
            Ok(()) => usable_feed(feed_of(document_of(xml@))) is Ok,
            Err(message) => usable_feed(feed_of(document_of(xml@))) == Err::<Seq<ParsedView>, _>(
                message@,
            ),
        },
{
    match parse(xml) {
        Err(message) => Err(message),
        Ok(items) => match validate_items(items) {
            Ok(_) => Ok(()),
            Err(message) => Err(message),
        },
    }
}

/// Every item of a feed has a key and a title.
pub proof fn law_items_have_keys_and_titles(nodes: Option<Seq<NodeView>>)
    ensures
        feed_of(nodes) matches Ok(items) ==> forall|i: int|
            0 <= i < items.len() ==> (#[trigger] items[i]).unique_key.len() > 0
                && items[i].title.len() > 0,
{
    if let Some(nodes) = nodes {
        lemma_items_have_keys_and_titles(nodes, find_element(nodes, "channel"@, 0), 0);
    }
}

proof fn lemma_items_have_keys_and_titles(nodes: Seq<NodeView>, channel: int, from: int)
    requires
        0 <= from,
    ensures
        forall|i: int|
            0 <= i < items_from(nodes, channel, from).len() ==> (#[trigger] items_from(
                nodes,
                channel,
                from,
            )[i]).unique_key.len() > 0 && items_from(nodes, channel, from)[i].title.len() > 0,
    decreases nodes.len() - from,
{
    if from < nodes.len() {
        lemma_items_have_keys_and_titles(nodes, channel, from + 1);
        let items = items_from(nodes, channel, from);
        let rest = items_from(nodes, channel, from + 1);
        assert forall|i: int| 0 <= i < items.len() implies (#[trigger] items[i]).unique_key.len() > 0
            && items[i].title.len() > 0 by {
            if items.len() > rest.len() && i > 0 {
                assert(items[i] == rest[i - 1]);
            } else if items.len() == rest.len() {
                assert(items[i] == rest[i]);
            }
        }
    }
}

} // verus!
