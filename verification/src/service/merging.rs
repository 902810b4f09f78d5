//! Taking the same feed in again.

use vstd::prelude::*;

use crate::models::{ItemView, ParsedView};
use crate::service::items::{
    are_latest_first, find_key, has_key, keys_differ, law_merging_keeps_items,
    law_sorting_keeps_items, lemma_find_key, merged, refreshed, timestamp_of, timestamps,
};
use crate::sorting::{
    goes_before, goes_down, is_rearrangement, law_descending_order_is_determined, rearranged,
    stands_in,
};

verus! {

/// Whether an item is another but for when it was changed.
pub open spec fn same_but_time(left: ItemView, right: ItemView) -> bool {
    left == ItemView { updated_at: left.updated_at, ..right }
}

/// What one item of the feed gives, and what a later one gives over it.
spec fn given_over(first: ParsedView, second: ParsedView) -> ParsedView {
    ParsedView {
        title: if second.title.len() > 0 {
            second.title
        } else {
            first.title
        },
        link: if second.link.len() > 0 {
            second.link
        } else {
            first.link
        },
        guid: if second.guid.len() > 0 {
            second.guid
        } else {
            first.guid
        },
        pub_date: if second.pub_date.len() > 0 {
            second.pub_date
        } else {
            first.pub_date
        },
        total_bytes: if second.total_bytes is Some {
            second.total_bytes
        } else {
            first.total_bytes
        },
        enclosure_url: if second.enclosure_url.len() > 0 {
            second.enclosure_url
        } else {
            first.enclosure_url
        },
        ..first
    }
}

/// All that a feed gives for a key, the last of each.
spec fn all_given(parsed: Seq<ParsedView>, key: Seq<char>) -> ParsedView
    decreases parsed.len(),
{
    if parsed.len() == 0 {
        ParsedView {
            unique_key: key,
            title: Seq::empty(),
            link: Seq::empty(),
            guid: Seq::empty(),
            pub_date: Seq::empty(),
            enclosure_url: Seq::empty(),
            total_bytes: None,
        }
    } else if parsed.last().unique_key == key {
        given_over(all_given(parsed.drop_last(), key), parsed.last())
    } else {
        all_given(parsed.drop_last(), key)
    }
}

/// Whether an item has all that a feed gives for it.
spec fn is_settled(item: ItemView, parsed: Seq<ParsedView>) -> bool {
    same_but_time(
        refreshed(item, all_given(parsed, item.unique_key), item.updated_at),
        item,
    )
}

proof fn lemma_nothing_given(parsed: Seq<ParsedView>, key: Seq<char>)
    requires
        forall|k: int| 0 <= k < parsed.len() ==> (#[trigger] parsed[k]).unique_key != key,
    ensures
        all_given(parsed, key) == all_given(Seq::empty(), key),
    decreases parsed.len(),
{
    if parsed.len() > 0 {
        let rest = parsed.drop_last();
        assert(parsed[parsed.len() - 1].unique_key != key);
        assert forall|k: int| 0 <= k < rest.len() implies (#[trigger] rest[k]).unique_key
            != key by {
            assert(rest[k] == parsed[k]);
        }
        lemma_nothing_given(rest, key);
    }
}

/// Once a feed is taken in, every item has all that the feed gives for it.
proof fn lemma_merging_settles(
    items: Seq<ItemView>,
    parsed: Seq<ParsedView>,
    download_dir: Seq<char>,
    now: Seq<char>,
)
    requires
        keys_differ(items),
    ensures
        forall|i: int|
            0 <= i < merged(items, parsed, download_dir, now).len() ==> is_settled(
                #[trigger] merged(items, parsed, download_dir, now)[i],
                parsed,
            ),
    decreases parsed.len(),
{
    if parsed.len() > 0 {
        let rest = parsed.drop_last();
        lemma_merging_settles(items, rest, download_dir, now);
        law_merging_keeps_items(items, rest, download_dir, now);
        let before = merged(items, rest, download_dir, now);
        let after = merged(items, parsed, download_dir, now);
        let key = parsed.last().unique_key;
        lemma_find_key(before, key, 0);
        let at = find_key(before, key, 0);
        assert forall|i: int| 0 <= i < after.len() implies is_settled(
            #[trigger] after[i],
            parsed,
        ) by {
            if i < before.len() {
                assert(is_settled(before[i], rest));
                if i != at && at < before.len() {
                    assert(before[i].unique_key != before[at].unique_key);
                }
            } else {
                assert forall|k: int| 0 <= k < rest.len() implies (#[trigger] rest[k]).unique_key
                    != key by {
                    assert(has_key(before, rest[k].unique_key));
                }
                lemma_nothing_given(rest, key);
            }
        }
    }
}

/// Where every item of a feed is there, taking the feed in gives each item
/// what the feed has for it, and nothing else.
proof fn lemma_merged_places(
    items: Seq<ItemView>,
    parsed: Seq<ParsedView>,
    download_dir: Seq<char>,
    now: Seq<char>,
)
    requires
        keys_differ(items),
        forall|k: int| 0 <= k < parsed.len() ==> has_key(items, (#[trigger] parsed[k]).unique_key),
    ensures
        merged(items, parsed, download_dir, now).len() == items.len(),
        forall|i: int|
            0 <= i < items.len() ==> same_but_time(
                #[trigger] merged(items, parsed, download_dir, now)[i],
                refreshed(
                    items[i],
                    all_given(parsed, items[i].unique_key),
                    items[i].updated_at,
                ),
            ),
    decreases parsed.len(),
{
    if parsed.len() > 0 {
        let rest = parsed.drop_last();
        assert forall|k: int| 0 <= k < rest.len() implies has_key(
            items,
            (#[trigger] rest[k]).unique_key,
        ) by {
            assert(rest[k] == parsed[k]);
        }
        lemma_merged_places(items, rest, download_dir, now);
        law_merging_keeps_items(items, rest, download_dir, now);
        let before = merged(items, rest, download_dir, now);
        let after = merged(items, parsed, download_dir, now);
        let key = parsed.last().unique_key;
        assert(has_key(items, parsed[parsed.len() - 1].unique_key));
        let place = choose|i: int| 0 <= i < items.len() && (#[trigger] items[i]).unique_key == key;
        assert(before[place].unique_key == key);
        lemma_find_key(before, key, 0);
        let at = find_key(before, key, 0);
        assert forall|i: int| 0 <= i < items.len() implies same_but_time(
            #[trigger] after[i],
            refreshed(items[i], all_given(parsed, items[i].unique_key), items[i].updated_at),
        ) by {
            assert(same_but_time(
                before[i],
                refreshed(items[i], all_given(rest, items[i].unique_key), items[i].updated_at),
            ));
            if i < at {
                assert(before[i].unique_key != before[at].unique_key);
            } else if i > at {
                assert(before[at].unique_key != before[i].unique_key);
            }
        }
    }
}

/// Items that are in order stay as they are when they are sorted again.
proof fn lemma_sorted_stays(
    items: Seq<ItemView>,
    sorted: Seq<ItemView>,
    changed: Seq<ItemView>,
    again: Seq<ItemView>,
)
    requires
        are_latest_first(items, sorted),
        changed.len() == sorted.len(),
        forall|i: int| 0 <= i < sorted.len() ==> same_but_time(#[trigger] changed[i], sorted[i]),
        are_latest_first(changed, again),
    ensures
        again == changed,
{
    let order = choose|order: Seq<usize>| #[trigger]
        is_rearrangement(order, items.len() as int) && goes_down(timestamps(items), order) && sorted
            == rearranged(items, order);
    let second = choose|order: Seq<usize>| #[trigger]
        is_rearrangement(order, changed.len() as int) && goes_down(timestamps(changed), order)
            && again == rearranged(changed, order);
    let keys = timestamps(changed);
    let same = Seq::new(changed.len(), |i: int| i as usize);
    assert forall|i: int| 0 <= i < changed.len() implies #[trigger] same[i] == i by {
        assert(stands_in(order, i));
    }
    assert forall|place: int| 0 <= place < changed.len() implies #[trigger] stands_in(
        same,
        place,
    ) by {
        assert(same[place] == place);
    }
    assert forall|i: int, j: int| 0 <= i < j < same.len() implies same[i] != same[j] by {
        assert(same[i] == i && same[j] == j);
    }
    assert(is_rearrangement(same, changed.len() as int));
    assert forall|i: int, j: int|
        #![trigger same[i], same[j]]
        0 <= i < j < same.len() implies goes_before(keys, same[i] as int, same[j] as int) by {
        assert(goes_before(timestamps(items), order[i] as int, order[j] as int));
        assert(same_but_time(changed[i], sorted[i]));
        assert(same_but_time(changed[j], sorted[j]));
        assert(keys[i] == timestamp_of(items[order[i] as int]));
        assert(keys[j] == timestamp_of(items[order[j] as int]));
    }
    law_descending_order_is_determined(keys, same, second);
    assert(again =~= changed);
}

/// Taking the same feed in again changes nothing but when the items were
/// changed: they are as many as before, in the same places, and all else of
/// each is as it was.
pub proof fn law_merging_again_changes_nothing(
    items: Seq<ItemView>,
    parsed: Seq<ParsedView>,
    download_dir: Seq<char>,
    first_time: Seq<char>,
    first: Seq<ItemView>,
    second_time: Seq<char>,
    second: Seq<ItemView>,
)
    requires
        keys_differ(items),
        are_latest_first(merged(items, parsed, download_dir, first_time), first),
        are_latest_first(merged(first, parsed, download_dir, second_time), second),
    ensures
        second.len() == first.len(),
        forall|i: int| 0 <= i < first.len() ==> same_but_time(#[trigger] second[i], first[i]),
{
    let all = merged(items, parsed, download_dir, first_time);
    let changed = merged(first, parsed, download_dir, second_time);
    law_merging_keeps_items(items, parsed, download_dir, first_time);
    lemma_merging_settles(items, parsed, download_dir, first_time);
    law_sorting_keeps_items(all, first);
    assert forall|k: int| 0 <= k < parsed.len() implies has_key(
        first,
        (#[trigger] parsed[k]).unique_key,
    ) by {
        assert(has_key(all, parsed[k].unique_key));
        let i = choose|i: int|
            0 <= i < all.len() && (#[trigger] all[i]).unique_key == parsed[k].unique_key;
        assert(all.contains(all[i]));
        let j = choose|j: int| 0 <= j < first.len() && first[j] == all[i];
        assert(first[j].unique_key == parsed[k].unique_key);
    }
    lemma_merged_places(first, parsed, download_dir, second_time);
    assert forall|i: int| 0 <= i < first.len() implies same_but_time(
        #[trigger] changed[i],
        first[i],
    ) by {
        assert(first.contains(first[i]));
        assert(all.contains(first[i]));
        let j = choose|j: int| 0 <= j < all.len() && all[j] == first[i];
        assert(is_settled(all[j], parsed));
    }
    lemma_sorted_stays(all, first, changed, second);
}

} // verus!
