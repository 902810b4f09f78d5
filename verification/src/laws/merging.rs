//! What the items are once a feed was merged into them.

use vstd::prelude::*;
use vstd::string::*;

use crate::models::{ItemStatus, ItemView, ParsedView};
use crate::outside::{formatted_time_of, rfc2822_of, rfc3339_of};
use crate::service::items::{
    are_latest_first, find_key, has_key, keys_differ, law_merging_keeps_items,
    law_sorting_keeps_items, lemma_find_key, merged, timestamp_of, timestamps,
};
use crate::sorting::{goes_before, goes_down, is_rearrangement, rearranged};
use crate::util::item_id_of;

verus! {

/// Whether an item of the feed is the last with a key that gives something.
pub open spec fn is_last_to_give(
    parsed: Seq<ParsedView>,
    key: Seq<char>,
    what: spec_fn(ParsedView) -> Seq<char>,
    at: int,
) -> bool {
    &&& 0 <= at < parsed.len()
    &&& parsed[at].unique_key == key
    &&& what(parsed[at]).len() > 0
    &&& forall|j: int|
        at < j < parsed.len() && (#[trigger] parsed[j]).unique_key == key ==> what(parsed[j]).len()
            == 0
}

/// Whether a text is the last that the feed gives for a key, or the text that
/// was there before where the feed gives none.
pub open spec fn takes(
    parsed: Seq<ParsedView>,
    key: Seq<char>,
    what: spec_fn(ParsedView) -> Seq<char>,
    before: Seq<char>,
    after: Seq<char>,
) -> bool {
    &&& forall|at: int| #[trigger]
        is_last_to_give(parsed, key, what, at) ==> after == what(parsed[at])
    &&& (forall|j: int|
        0 <= j < parsed.len() && (#[trigger] parsed[j]).unique_key == key ==> what(parsed[j]).len()
            == 0) ==> after == before
}

/// Whether an item of the feed is the last with a key that gives a size.
pub open spec fn is_last_to_size(parsed: Seq<ParsedView>, key: Seq<char>, at: int) -> bool {
    &&& 0 <= at < parsed.len()
    &&& parsed[at].unique_key == key
    &&& parsed[at].total_bytes is Some
    &&& forall|j: int|
        at < j < parsed.len() && (#[trigger] parsed[j]).unique_key == key
            ==> parsed[j].total_bytes is None
}

/// Whether a size is the last that the feed gives for a key, or the size that
/// was there before where the feed gives none.
pub open spec fn takes_size(
    parsed: Seq<ParsedView>,
    key: Seq<char>,
    before: Option<u64>,
    after: Option<u64>,
) -> bool {
    &&& forall|at: int| #[trigger]
        is_last_to_size(parsed, key, at) ==> after == parsed[at].total_bytes
    &&& (forall|j: int|
        0 <= j < parsed.len() && (#[trigger] parsed[j]).unique_key == key
            ==> parsed[j].total_bytes is None) ==> after == before
}

/// Whether a feed has a key.
pub open spec fn feed_has(parsed: Seq<ParsedView>, key: Seq<char>) -> bool {
    exists|j: int| 0 <= j < parsed.len() && (#[trigger] parsed[j]).unique_key == key
}

/// Whether an item of the feed is the first with a key.
pub open spec fn is_first_with(parsed: Seq<ParsedView>, key: Seq<char>, at: int) -> bool {
    &&& 0 <= at < parsed.len()
    &&& parsed[at].unique_key == key
    &&& forall|j: int| 0 <= j < at ==> (#[trigger] parsed[j]).unique_key != key
}

/// Whether an item has of each thing that a feed gives the last that is given
/// for its key, and for the rest what stood there before.
pub open spec fn has_what_is_given(
    before: ItemView,
    after: ItemView,
    parsed: Seq<ParsedView>,
) -> bool {
    let key = after.unique_key;
    &&& takes(parsed, key, |p: ParsedView| p.title, before.title, after.title)
    &&& takes(parsed, key, |p: ParsedView| p.link, before.link, after.link)
    &&& takes(parsed, key, |p: ParsedView| p.guid, before.guid, after.guid)
    &&& takes(parsed, key, |p: ParsedView| p.pub_date, before.pub_date, after.pub_date)
    &&& takes(
        parsed,
        key,
        |p: ParsedView| p.enclosure_url,
        before.enclosure_url,
        after.enclosure_url,
    )
    &&& takes_size(parsed, key, before.total_bytes, after.total_bytes)
}

/// Whether an item is one that was there before, as a feed changes it: with
/// what the feed gives for its key, and with all else as it was.
pub open spec fn is_known_item(
    before: ItemView,
    after: ItemView,
    parsed: Seq<ParsedView>,
    now: Seq<char>,
) -> bool {
    &&& has_what_is_given(before, after, parsed)
    &&& after == (ItemView {
        title: after.title,
        link: after.link,
        guid: after.guid,
        pub_date: after.pub_date,
        enclosure_url: after.enclosure_url,
        total_bytes: after.total_bytes,
        updated_at: if feed_has(parsed, before.unique_key) {
            now
        } else {
            before.updated_at
        },
        ..before
    })
}

/// Whether an item is new: it has what the feed gives for its key and nothing
/// else, it has not been touched, and it is queued where the first item of the
/// feed with its key has a torrent URL.
pub open spec fn is_new_item(
    after: ItemView,
    parsed: Seq<ParsedView>,
    download_dir: Seq<char>,
    now: Seq<char>,
) -> bool {
    let nothing = ItemView {
        title: Seq::empty(),
        link: Seq::empty(),
        guid: Seq::empty(),
        pub_date: Seq::empty(),
        enclosure_url: Seq::empty(),
        total_bytes: None,
        ..after
    };
    &&& has_what_is_given(nothing, after, parsed)
    &&& after.id == item_id_of(after.unique_key)
    &&& after.download_dir == download_dir
    &&& after.first_seen_at == now
    &&& after.updated_at == now
    &&& after.torrent_path is None && after.info_hash is None && after.save_name is None
    &&& after.save_location is None && after.submitted_at is None && after.completed_at is None
    &&& after.ignored_at is None && after.last_error is None
    &&& feed_has(parsed, after.unique_key)
    &&& forall|first: int| #[trigger]
        is_first_with(parsed, after.unique_key, first) ==> after.status == if
            parsed[first].enclosure_url.len() > 0 {
            ItemStatus::Queued
        } else {
            ItemStatus::New
        }
}

proof fn lemma_takes_other(
    parsed: Seq<ParsedView>,
    key: Seq<char>,
    what: spec_fn(ParsedView) -> Seq<char>,
    before: Seq<char>,
    after: Seq<char>,
)
    requires
        parsed.len() > 0,
        parsed.last().unique_key != key,
        takes(parsed.drop_last(), key, what, before, after),
    ensures
        takes(parsed, key, what, before, after),
{
    let rest = parsed.drop_last();
    assert forall|at: int| #[trigger] is_last_to_give(parsed, key, what, at) implies after == what(
        parsed[at],
    ) by {
        assert(at < rest.len());
        assert forall|j: int|
            at < j < rest.len() && (#[trigger] rest[j]).unique_key == key implies what(
            rest[j],
        ).len() == 0 by {
            assert(rest[j] == parsed[j]);
        }
        assert(is_last_to_give(rest, key, what, at));
    }
    if forall|j: int|
        0 <= j < parsed.len() && (#[trigger] parsed[j]).unique_key == key ==> what(parsed[j]).len()
            == 0 {
        assert forall|j: int|
            0 <= j < rest.len() && (#[trigger] rest[j]).unique_key == key implies what(
            rest[j],
        ).len() == 0 by {
            assert(rest[j] == parsed[j]);
        }
    }
}

proof fn lemma_takes_last(
    parsed: Seq<ParsedView>,
    key: Seq<char>,
    what: spec_fn(ParsedView) -> Seq<char>,
    before: Seq<char>,
    middle: Seq<char>,
    after: Seq<char>,
)
    requires
        parsed.len() > 0,
        parsed.last().unique_key == key,
        takes(parsed.drop_last(), key, what, before, middle),
        after == if what(parsed.last()).len() > 0 {
            what(parsed.last())
        } else {
            middle
        },
    ensures
        takes(parsed, key, what, before, after),
{
    let rest = parsed.drop_last();
    let end = parsed.len() - 1;
    assert(parsed[end] == parsed.last());
    assert forall|at: int| #[trigger] is_last_to_give(parsed, key, what, at) implies after == what(
        parsed[at],
    ) by {
        if at < end {
            assert(parsed[end].unique_key == key);
            assert forall|j: int|
                at < j < rest.len() && (#[trigger] rest[j]).unique_key == key implies what(
                rest[j],
            ).len() == 0 by {
                assert(rest[j] == parsed[j]);
            }
            assert(is_last_to_give(rest, key, what, at));
        }
    }
    if forall|j: int|
        0 <= j < parsed.len() && (#[trigger] parsed[j]).unique_key == key ==> what(parsed[j]).len()
            == 0 {
        assert(what(parsed[end]).len() == 0);
        assert forall|j: int|
            0 <= j < rest.len() && (#[trigger] rest[j]).unique_key == key implies what(
            rest[j],
        ).len() == 0 by {
            assert(rest[j] == parsed[j]);
        }
    }
}

proof fn lemma_takes_size_other(
    parsed: Seq<ParsedView>,
    key: Seq<char>,
    before: Option<u64>,
    after: Option<u64>,
)
    requires
        parsed.len() > 0,
        parsed.last().unique_key != key,
        takes_size(parsed.drop_last(), key, before, after),
    ensures
        takes_size(parsed, key, before, after),
{
    let rest = parsed.drop_last();
    assert forall|at: int| #[trigger] is_last_to_size(parsed, key, at) implies after
        == parsed[at].total_bytes by {
        assert forall|j: int|
            at < j < rest.len() && (#[trigger] rest[j]).unique_key
                == key implies rest[j].total_bytes is None by {
            assert(rest[j] == parsed[j]);
        }
        assert(is_last_to_size(rest, key, at));
    }
    if forall|j: int|
        0 <= j < parsed.len() && (#[trigger] parsed[j]).unique_key == key
            ==> parsed[j].total_bytes is None {
        assert forall|j: int|
            0 <= j < rest.len() && (#[trigger] rest[j]).unique_key
                == key implies rest[j].total_bytes is None by {
            assert(rest[j] == parsed[j]);
        }
    }
}

proof fn lemma_takes_size_last(
    parsed: Seq<ParsedView>,
    key: Seq<char>,
    before: Option<u64>,
    middle: Option<u64>,
    after: Option<u64>,
)
    requires
        parsed.len() > 0,
        parsed.last().unique_key == key,
        takes_size(parsed.drop_last(), key, before, middle),
        after == if parsed.last().total_bytes is Some {
            parsed.last().total_bytes
        } else {
            middle
        },
    ensures
        takes_size(parsed, key, before, after),
{
    let rest = parsed.drop_last();
    let end = parsed.len() - 1;
    assert(parsed[end] == parsed.last());
    assert forall|at: int| #[trigger] is_last_to_size(parsed, key, at) implies after
        == parsed[at].total_bytes by {
        if at < end {
            assert(parsed[end].unique_key == key);
            assert forall|j: int|
                at < j < rest.len() && (#[trigger] rest[j]).unique_key
                    == key implies rest[j].total_bytes is None by {
                assert(rest[j] == parsed[j]);
            }
            assert(is_last_to_size(rest, key, at));
        }
    }
    if forall|j: int|
        0 <= j < parsed.len() && (#[trigger] parsed[j]).unique_key == key
            ==> parsed[j].total_bytes is None {
        assert(parsed[end].total_bytes is None);
        assert forall|j: int|
            0 <= j < rest.len() && (#[trigger] rest[j]).unique_key
                == key implies rest[j].total_bytes is None by {
            assert(rest[j] == parsed[j]);
        }
    }
}

proof fn lemma_given_other(before: ItemView, after: ItemView, parsed: Seq<ParsedView>)
    requires
        parsed.len() > 0,
        parsed.last().unique_key != after.unique_key,
        has_what_is_given(before, after, parsed.drop_last()),
    ensures
        has_what_is_given(before, after, parsed),
{
    let key = after.unique_key;
    lemma_takes_other(parsed, key, |p: ParsedView| p.title, before.title, after.title);
    lemma_takes_other(parsed, key, |p: ParsedView| p.link, before.link, after.link);
    lemma_takes_other(parsed, key, |p: ParsedView| p.guid, before.guid, after.guid);
    lemma_takes_other(parsed, key, |p: ParsedView| p.pub_date, before.pub_date, after.pub_date);
    lemma_takes_other(
        parsed,
        key,
        |p: ParsedView| p.enclosure_url,
        before.enclosure_url,
        after.enclosure_url,
    );
    lemma_takes_size_other(parsed, key, before.total_bytes, after.total_bytes);
}

/// Whether an item has what one item of the feed gives over another item.
spec fn is_given_over(middle: ItemView, after: ItemView, p: ParsedView) -> bool {
    &&& after.unique_key == middle.unique_key
    &&& after.title == if p.title.len() > 0 {
        p.title
    } else {
        middle.title
    }
    &&& after.link == if p.link.len() > 0 {
        p.link
    } else {
        middle.link
    }
    &&& after.guid == if p.guid.len() > 0 {
        p.guid
    } else {
        middle.guid
    }
    &&& after.pub_date == if p.pub_date.len() > 0 {
        p.pub_date
    } else {
        middle.pub_date
    }
    &&& after.enclosure_url == if p.enclosure_url.len() > 0 {
        p.enclosure_url
    } else {
        middle.enclosure_url
    }
    &&& after.total_bytes == if p.total_bytes is Some {
        p.total_bytes
    } else {
        middle.total_bytes
    }
}

proof fn lemma_given_last(
    before: ItemView,
    middle: ItemView,
    after: ItemView,
    parsed: Seq<ParsedView>,
)
    requires
        parsed.len() > 0,
        parsed.last().unique_key == after.unique_key,
        has_what_is_given(before, middle, parsed.drop_last()),
        is_given_over(middle, after, parsed.last()),
    ensures
        has_what_is_given(before, after, parsed),
{
    let key = after.unique_key;
    lemma_takes_last(
        parsed,
        key,
        |p: ParsedView| p.title,
        before.title,
        middle.title,
        after.title,
    );
    lemma_takes_last(parsed, key, |p: ParsedView| p.link, before.link, middle.link, after.link);
    lemma_takes_last(parsed, key, |p: ParsedView| p.guid, before.guid, middle.guid, after.guid);
    lemma_takes_last(
        parsed,
        key,
        |p: ParsedView| p.pub_date,
        before.pub_date,
        middle.pub_date,
        after.pub_date,
    );
    lemma_takes_last(
        parsed,
        key,
        |p: ParsedView| p.enclosure_url,
        before.enclosure_url,
        middle.enclosure_url,
        after.enclosure_url,
    );
    lemma_takes_size_last(
        parsed,
        key,
        before.total_bytes,
        middle.total_bytes,
        after.total_bytes,
    );
}

proof fn lemma_feed_has_more(parsed: Seq<ParsedView>, key: Seq<char>)
    requires
        parsed.len() > 0,
    ensures
        feed_has(parsed, key) <==> feed_has(parsed.drop_last(), key) || parsed.last().unique_key
            == key,
{
    let rest = parsed.drop_last();
    if feed_has(parsed, key) {
        let j = choose|j: int| 0 <= j < parsed.len() && (#[trigger] parsed[j]).unique_key == key;
        if j < rest.len() {
            assert(rest[j].unique_key == key);
        }
    }
    if feed_has(rest, key) {
        let j = choose|j: int| 0 <= j < rest.len() && (#[trigger] rest[j]).unique_key == key;
        assert(parsed[j].unique_key == key);
    }
    if parsed.last().unique_key == key {
        assert(parsed[parsed.len() - 1].unique_key == key);
    }
}

proof fn lemma_first_stays(parsed: Seq<ParsedView>, key: Seq<char>, at: int)
    requires
        parsed.len() > 0,
        feed_has(parsed.drop_last(), key),
        is_first_with(parsed, key, at),
    ensures
        is_first_with(parsed.drop_last(), key, at),
        parsed.drop_last()[at] == parsed[at],
{
    let rest = parsed.drop_last();
    let j = choose|j: int| 0 <= j < rest.len() && (#[trigger] rest[j]).unique_key == key;
    assert(parsed[j].unique_key == key);
    assert(at <= j);
    assert forall|i: int| 0 <= i < at implies (#[trigger] rest[i]).unique_key != key by {
        assert(rest[i] == parsed[i]);
    }
}

/// Whether the items from a number on are new, in the order in which a feed has
/// them first, and the others those that were there before.
spec fn is_merged(
    items: Seq<ItemView>,
    after: Seq<ItemView>,
    parsed: Seq<ParsedView>,
    download_dir: Seq<char>,
    now: Seq<char>,
) -> bool {
    &&& items.len() <= after.len()
    &&& forall|i: int|
        0 <= i < items.len() ==> is_known_item(items[i], #[trigger] after[i], parsed, now)
    &&& forall|i: int|
        items.len() <= i < after.len() ==> is_new_item(
            #[trigger] after[i],
            parsed,
            download_dir,
            now,
        )
    &&& forall|i: int, j: int, first: int, second: int|
        #![trigger is_first_with(parsed, after[i].unique_key, first), is_first_with(parsed, after[j].unique_key, second)]
        items.len() <= i < j < after.len() && is_first_with(parsed, after[i].unique_key, first)
            && is_first_with(parsed, after[j].unique_key, second) ==> first < second
}

proof fn lemma_merged(
    items: Seq<ItemView>,
    parsed: Seq<ParsedView>,
    download_dir: Seq<char>,
    now: Seq<char>,
)
    requires
        keys_differ(items),
    ensures
        is_merged(items, merged(items, parsed, download_dir, now), parsed, download_dir, now),
    decreases parsed.len(),
{
    let after = merged(items, parsed, download_dir, now);
    if parsed.len() == 0 {
        assert forall|i: int| 0 <= i < items.len() implies is_known_item(
            items[i],
            #[trigger] after[i],
            parsed,
            now,
        ) by {
            assert(!feed_has(parsed, items[i].unique_key));
        }
    } else {
        let rest = parsed.drop_last();
        let p = parsed.last();
        let before = merged(items, rest, download_dir, now);
        lemma_merged(items, rest, download_dir, now);
        law_merging_keeps_items(items, rest, download_dir, now);
        lemma_find_key(before, p.unique_key, 0);
        let at = find_key(before, p.unique_key, 0);
        assert forall|i: int| 0 <= i < before.len() implies after[i].unique_key
            == before[i].unique_key && (i != at ==> after[i] == before[i] && before[i].unique_key
            != p.unique_key) by {
            if at < before.len() && i != at {
                if i < at {
                    assert(before[i].unique_key != before[at].unique_key);
                } else {
                    assert(before[at].unique_key != before[i].unique_key);
                }
            }
        }
        assert forall|i: int| 0 <= i < items.len() implies is_known_item(
            items[i],
            #[trigger] after[i],
            parsed,
            now,
        ) by {
            assert(is_known_item(items[i], before[i], rest, now));
            lemma_feed_has_more(parsed, items[i].unique_key);
            if i == at {
                lemma_given_last(items[i], before[i], after[i], parsed);
            } else {
                lemma_given_other(items[i], after[i], parsed);
            }
        }
        assert forall|i: int| items.len() <= i < after.len() implies is_new_item(
            #[trigger] after[i],
            parsed,
            download_dir,
            now,
        ) by {
            let key = after[i].unique_key;
            lemma_feed_has_more(parsed, key);
            let nothing = ItemView {
                title: Seq::empty(),
                link: Seq::empty(),
                guid: Seq::empty(),
                pub_date: Seq::empty(),
                enclosure_url: Seq::empty(),
                total_bytes: None,
                ..after[i]
            };
            if i < before.len() {
                assert(is_new_item(before[i], rest, download_dir, now));
                if i == at {
                    lemma_given_last(nothing, before[i], after[i], parsed);
                } else {
                    lemma_given_other(nothing, after[i], parsed);
                }
                assert forall|first: int| #[trigger] is_first_with(parsed, key, first) implies
                    after[i].status == if parsed[first].enclosure_url.len() > 0 {
                    ItemStatus::Queued
                } else {
                    ItemStatus::New
                } by {
                    lemma_first_stays(parsed, key, first);
                }
            } else {
                assert(!feed_has(rest, key)) by {
                    if feed_has(rest, key) {
                        let j = choose|j: int|
                            0 <= j < rest.len() && (#[trigger] rest[j]).unique_key == key;
                        assert(has_key(before, rest[j].unique_key));
                    }
                }
                assert forall|j: int| 0 <= j < rest.len() implies (#[trigger] rest[j]).unique_key
                    != key by {}
                assert(has_what_is_given(nothing, nothing, rest));
                assert(p.title.len() == 0 ==> p.title =~= Seq::empty());
                assert(p.link.len() == 0 ==> p.link =~= Seq::empty());
                assert(p.guid.len() == 0 ==> p.guid =~= Seq::empty());
                assert(p.pub_date.len() == 0 ==> p.pub_date =~= Seq::empty());
                assert(p.enclosure_url.len() == 0 ==> p.enclosure_url =~= Seq::empty());
                lemma_given_last(nothing, nothing, after[i], parsed);
                assert forall|first: int| #[trigger] is_first_with(parsed, key, first) implies first
                    == parsed.len() - 1 by {
                    if first < rest.len() {
                        assert(rest[first].unique_key == key);
                    }
                }
            }
        }
        assert forall|i: int, j: int, first: int, second: int|
            #![trigger is_first_with(parsed, after[i].unique_key, first), is_first_with(parsed, after[j].unique_key, second)]
            items.len() <= i < j < after.len() && is_first_with(
                parsed,
                after[i].unique_key,
                first,
            ) && is_first_with(parsed, after[j].unique_key, second) implies first < second by {
            assert(is_new_item(before[i], rest, download_dir, now));
            lemma_first_stays(parsed, after[i].unique_key, first);
            if j < before.len() {
                assert(is_new_item(before[j], rest, download_dir, now));
                lemma_first_stays(parsed, after[j].unique_key, second);
                assert(is_first_with(rest, before[i].unique_key, first));
                assert(is_first_with(rest, before[j].unique_key, second));
            } else {
                if second < rest.len() {
                    assert(rest[second].unique_key == after[j].unique_key);
                    assert(has_key(before, rest[second].unique_key));
                }
            }
        }
    }
}

/// What the items are once a feed was merged: each is either one that was there
/// before, with what the feed gives for its key and all else as it was, or one
/// that is new; each key of the feed and each former key has one item.
pub proof fn law_merged_items_have_what_the_feed_gives(
    items: Seq<ItemView>,
    parsed: Seq<ParsedView>,
    download_dir: Seq<char>,
    now: Seq<char>,
    after: Seq<ItemView>,
)
    requires
        keys_differ(items),
        are_latest_first(merged(items, parsed, download_dir, now), after),
    ensures
        keys_differ(after),
        forall|i: int|
            0 <= i < items.len() ==> exists|j: int|
                0 <= j < after.len() && is_known_item(
                    #[trigger] items[i],
                    #[trigger] after[j],
                    parsed,
                    now,
                ),
        forall|k: int|
            0 <= k < parsed.len() ==> has_key(after, (#[trigger] parsed[k]).unique_key),
        forall|j: int|
            0 <= j < after.len() && !has_key(items, (#[trigger] after[j]).unique_key)
                ==> is_new_item(after[j], parsed, download_dir, now),
        forall|i: int, j: int|
            0 <= i < items.len() && 0 <= j < after.len() && (#[trigger] items[i]).unique_key == (
            #[trigger] after[j]).unique_key ==> is_known_item(items[i], after[j], parsed, now),
{
    let all = merged(items, parsed, download_dir, now);
    lemma_merged(items, parsed, download_dir, now);
    law_merging_keeps_items(items, parsed, download_dir, now);
    law_sorting_keeps_items(all, after);
    assert forall|i: int| 0 <= i < items.len() implies exists|j: int|
        0 <= j < after.len() && is_known_item(
            #[trigger] items[i],
            #[trigger] after[j],
            parsed,
            now,
        ) by {
        assert(all.contains(all[i]));
        let j = choose|j: int| 0 <= j < after.len() && after[j] == all[i];
        assert(is_known_item(items[i], after[j], parsed, now));
    }
    assert forall|k: int| 0 <= k < parsed.len() implies has_key(
        after,
        (#[trigger] parsed[k]).unique_key,
    ) by {
        assert(has_key(all, parsed[k].unique_key));
        let i = choose|i: int|
            0 <= i < all.len() && (#[trigger] all[i]).unique_key == parsed[k].unique_key;
        assert(all.contains(all[i]));
        let j = choose|j: int| 0 <= j < after.len() && after[j] == all[i];
        assert(after[j].unique_key == parsed[k].unique_key);
    }
    assert forall|j: int|
        0 <= j < after.len() && !has_key(
            items,
            (#[trigger] after[j]).unique_key,
        ) implies is_new_item(after[j], parsed, download_dir, now) by {
        assert(after.contains(after[j]));
        let i = choose|i: int| 0 <= i < all.len() && all[i] == after[j];
        if i < items.len() {
            assert(items[i].unique_key == after[j].unique_key);
        }
    }
    assert forall|i: int, j: int|
        0 <= i < items.len() && 0 <= j < after.len() && (#[trigger] items[i]).unique_key == (
        #[trigger] after[j]).unique_key implies is_known_item(
        items[i],
        after[j],
        parsed,
        now,
    ) by {
        assert(after.contains(after[j]));
        let k = choose|k: int| 0 <= k < all.len() && all[k] == after[j];
        if k != i {
            if k < i {
                assert(all[k].unique_key != all[i].unique_key);
            } else {
                assert(all[i].unique_key != all[k].unique_key);
            }
        }
    }
}

/// The merged items are sorted by when they were published, the latest first.
/// Those of the same time stay in their order, those that are new behind the
/// others, and among themselves as the feed has them.
pub proof fn law_merged_items_are_sorted(
    items: Seq<ItemView>,
    parsed: Seq<ParsedView>,
    download_dir: Seq<char>,
    now: Seq<char>,
    after: Seq<ItemView>,
    i: int,
    j: int,
)
    requires
        keys_differ(items),
        are_latest_first(merged(items, parsed, download_dir, now), after),
        0 <= i < j < after.len(),
    ensures
        timestamp_of(after[i]) >= timestamp_of(after[j]),
        timestamp_of(after[i]) == timestamp_of(after[j]) ==> {
            &&& forall|a: int, b: int|
                0 <= a < items.len() && 0 <= b < items.len() && (#[trigger] items[a]).unique_key
                    == after[i].unique_key && (#[trigger] items[b]).unique_key
                    == after[j].unique_key ==> a < b
            &&& has_key(items, after[j].unique_key) ==> has_key(items, after[i].unique_key)
            &&& forall|first: int, second: int|
                !has_key(items, after[i].unique_key) && !has_key(items, after[j].unique_key)
                    && #[trigger] is_first_with(parsed, after[i].unique_key, first)
                    && #[trigger] is_first_with(parsed, after[j].unique_key, second) ==> first
                    < second
        },
{
    let all = merged(items, parsed, download_dir, now);
    lemma_merged(items, parsed, download_dir, now);
    law_merging_keeps_items(items, parsed, download_dir, now);
    let order = choose|order: Seq<usize>| #[trigger]
        is_rearrangement(order, all.len() as int) && goes_down(timestamps(all), order) && after
            == rearranged(all, order);
    let left = order[i] as int;
    let right = order[j] as int;
    assert(goes_before(timestamps(all), left, right));
    assert(after[i] == all[left] && after[j] == all[right]);
    if timestamp_of(after[i]) == timestamp_of(after[j]) {
        assert(left < right);
        assert forall|a: int, b: int|
            0 <= a < items.len() && 0 <= b < items.len() && (#[trigger] items[a]).unique_key
                == after[i].unique_key && (#[trigger] items[b]).unique_key
                == after[j].unique_key implies a < b by {
            lemma_same_place(items, all, a, left);
            lemma_same_place(items, all, b, right);
        }
        if has_key(items, after[j].unique_key) {
            let b = choose|b: int|
                0 <= b < items.len() && (#[trigger] items[b]).unique_key == after[j].unique_key;
            lemma_same_place(items, all, b, right);
            assert(items[left].unique_key == after[i].unique_key);
        }
        assert forall|first: int, second: int|
            !has_key(items, after[i].unique_key) && !has_key(items, after[j].unique_key)
                && #[trigger] is_first_with(parsed, after[i].unique_key, first)
                && #[trigger] is_first_with(
                parsed,
                after[j].unique_key,
                second,
            ) implies first < second by {
            if left < items.len() {
                assert(items[left].unique_key == after[i].unique_key);
            }
            if right < items.len() {
                assert(items[right].unique_key == after[j].unique_key);
            }
            assert(is_first_with(parsed, all[left].unique_key, first));
            assert(is_first_with(parsed, all[right].unique_key, second));
        }
    }
}

proof fn lemma_same_place(items: Seq<ItemView>, all: Seq<ItemView>, at: int, place: int)
    requires
        0 <= at < items.len() <= all.len(),
        0 <= place < all.len(),
        keys_differ(all),
        all[at].unique_key == items[at].unique_key,
        all[place].unique_key == items[at].unique_key,
    ensures
        at == place,
{
    if at < place {
        assert(all[at].unique_key != all[place].unique_key);
    } else if place < at {
        assert(all[place].unique_key != all[at].unique_key);
    }
}

/// An item was published when its date says, in the first of three formats
/// that it is in; one whose date is in none of them counts as published when
/// it was first seen, or at the very beginning.
pub proof fn law_items_are_dated_by_the_first_format(item: ItemView, seconds: i64, nanos: int)
    ensures
        rfc2822_of(item.pub_date) == Some(seconds) ==> timestamp_of(item) == seconds,
        rfc2822_of(item.pub_date) is None ==> {
            &&& rfc3339_of(item.pub_date) == Some((seconds as int, nanos)) ==> timestamp_of(item)
                == seconds
            &&& rfc3339_of(item.pub_date) is None ==> {
                let third = formatted_time_of(item.pub_date, "%Y-%m-%dT%H:%M:%S%.f"@);
                &&& third == Some(seconds) ==> timestamp_of(item) == seconds
                &&& third is None && rfc3339_of(item.first_seen_at) == Some((seconds as int, nanos))
                    ==> timestamp_of(item) == seconds
                &&& third is None && rfc3339_of(item.first_seen_at) is None ==> timestamp_of(item)
                    == 0
            }
        },
{
}

} // verus!
