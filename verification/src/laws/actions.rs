//! What the user's actions on items come to.

use vstd::prelude::*;
use vstd::string::*;

use crate::laws::submission::is_first_item;
use crate::models::{items_view, FeedItem, ItemStatus, ItemView, StateView};
use crate::outside::{rfc3339_text_of, LAST_MILLIS};
use crate::service::items::{
    are_listed, control_ends, controlled, controlling, deleted, first_seen, ignoring, pending_from,
    restoring, retrying,
};
use crate::service::state::{lemma_find_item, InnerView};
use crate::sorting::{
    goes_before, goes_down, is_rearrangement, rearranged, stands_in, text_above, Rank,
};

verus! {

/// Whether no item has an identifier.
pub open spec fn has_no_item(items: Seq<ItemView>, id: Seq<char>) -> bool {
    forall|j: int| 0 <= j < items.len() ==> (#[trigger] items[j]).id != id
}

/// What a service keeps, with the item in one place changed and nothing else.
pub open spec fn with_item_at(inner: InnerView, at: int, item: ItemView) -> InnerView {
    InnerView {
        state: StateView { items: inner.state.items.update(at, item), ..inner.state },
        ..inner
    }
}

/// An item of any status can be ignored: it is marked so, with the time, and
/// without its error. Nothing else of it changes, and no other item.
pub proof fn law_ignoring_marks_the_item(inner: InnerView, id: Seq<char>, at: int, now: int)
    ensures
        is_first_item(inner.state.items, id, at) ==> ({
            let item = ItemView {
                status: ItemStatus::Ignored,
                ignored_at: Some(rfc3339_text_of(now)),
                updated_at: rfc3339_text_of(now),
                last_error: None,
                ..inner.state.items[at]
            };
            ignoring(inner, id, now) == (Ok::<_, Seq<char>>(item), with_item_at(inner, at, item))
        }),
        has_no_item(inner.state.items, id) ==> ignoring(inner, id, now) == (
            Err::<ItemView, _>("Item not found"@),
            inner,
        ),
{
    lemma_find_item(inner.state.items, id, 0);
}

/// An ignored item that is restored is queued where it has a torrent URL, and
/// new where it has none. An item that is not ignored is refused. Where
/// downloads are automatic, the feed is polled a second later.
pub proof fn law_restoring_queues_the_item(inner: InnerView, id: Seq<char>, at: int, now: int)
    ensures
        is_first_item(inner.state.items, id, at) && inner.state.items[at].status
            == ItemStatus::Ignored ==> ({
            let item = ItemView {
                status: if inner.state.items[at].enclosure_url.len() > 0 {
                    ItemStatus::Queued
                } else {
                    ItemStatus::New
                },
                ignored_at: None,
                updated_at: rfc3339_text_of(now),
                last_error: None,
                ..inner.state.items[at]
            };
            restoring(inner, id, now) == (
                Ok::<_, Seq<char>>(item),
                InnerView {
                    next_poll_at: if inner.state.config.auto_download_enabled && now + 1000
                        <= LAST_MILLIS {
                        Some(rfc3339_text_of(now + 1000))
                    } else {
                        inner.next_poll_at
                    },
                    ..with_item_at(inner, at, item)
                },
            )
        }),
        is_first_item(inner.state.items, id, at) && inner.state.items[at].status
            != ItemStatus::Ignored ==> restoring(inner, id, now) == (
            Err::<ItemView, _>("Only ignored items can be restored"@),
            inner,
        ),
        has_no_item(inner.state.items, id) ==> restoring(inner, id, now) == (
            Err::<ItemView, _>("Item not found"@),
            inner,
        ),
{
    lemma_find_item(inner.state.items, id, 0);
}

/// An item that failed is queued again, without its error; any other is
/// refused.
pub proof fn law_retrying_queues_what_failed(inner: InnerView, id: Seq<char>, at: int, now: int)
    ensures
        is_first_item(inner.state.items, id, at) && inner.state.items[at].status
            == ItemStatus::Failed ==> retrying(inner, id, now) == (
            None::<Seq<char>>,
            with_item_at(
                inner,
                at,
                ItemView {
                    status: ItemStatus::Queued,
                    updated_at: rfc3339_text_of(now),
                    last_error: None,
                    ..inner.state.items[at]
                },
            ),
        ),
        is_first_item(inner.state.items, id, at) && inner.state.items[at].status
            != ItemStatus::Failed ==> retrying(inner, id, now) == (
            Some("Only failed items can be retried"@),
            inner,
        ),
        has_no_item(inner.state.items, id) ==> retrying(inner, id, now) == (
            Some("Item not found"@),
            inner,
        ),
{
    lemma_find_item(inner.state.items, id, 0);
}

/// A task is stopped, started or deleted by the info hash of its item, which
/// the item has to have.
pub proof fn law_tasks_are_controlled_by_the_hash(
    items: Seq<ItemView>,
    id: Seq<char>,
    at: int,
    info_hash: Seq<char>,
)
    ensures
        is_first_item(items, id, at) && items[at].info_hash == Some(info_hash) ==> controlling(
            items,
            id,
        ) == Ok::<_, Seq<char>>((items[at], info_hash)),
        is_first_item(items, id, at) && items[at].info_hash is None ==> controlling(items, id)
            == Err::<(ItemView, Seq<char>), _>("任务尚无 InfoHash"@),
        has_no_item(items, id) ==> controlling(items, id) == Err::<(ItemView, Seq<char>), _>(
            "Item not found"@,
        ),
{
    lemma_find_item(items, id, 0);
}

/// An item whose task was stopped is paused, and one whose task was started is
/// submitted; one whose task was deleted is deleted and has no torrent file
/// any more. All of them are without an error, and nothing else changes.
pub proof fn law_control_sets_the_status(
    before: InnerView,
    after: InnerView,
    item: ItemView,
    at: int,
    pause: bool,
    now: Seq<char>,
    r: Result<FeedItem, String>,
)
    requires
        is_first_item(before.state.items, item.id, at),
    ensures
        control_ends(before, after, controlled(item, pause, now), r) ==> ({
            let changed = ItemView {
                status: if pause {
                    ItemStatus::Paused
                } else {
                    ItemStatus::Submitted
                },
                updated_at: now,
                last_error: None,
                ..item
            };
            after == with_item_at(before, at, changed) && r is Ok && r->Ok_0@ == changed
        }),
        control_ends(before, after, deleted(item, now), r) ==> ({
            let changed = ItemView {
                status: ItemStatus::Deleted,
                torrent_path: None,
                updated_at: now,
                last_error: None,
                ..item
            };
            after == with_item_at(before, at, changed) && r is Ok && r->Ok_0@ == changed
        }),
{
    lemma_find_item(before.state.items, item.id, 0);
}

/// An action on the task of an item that is gone fails, and changes nothing.
pub proof fn law_control_of_no_item_fails(
    before: InnerView,
    after: InnerView,
    item: ItemView,
    r: Result<FeedItem, String>,
)
    requires
        has_no_item(before.state.items, item.id),
        control_ends(before, after, item, r),
    ensures
        after == before,
        r matches Err(error) && error@ == "Item not found"@,
{
    lemma_find_item(before.state.items, item.id, 0);
}

proof fn lemma_pending(items: Seq<ItemView>, from: int) -> (places: Seq<int>)
    requires
        0 <= from <= items.len(),
    ensures
        are_pending_places(items, from, places),
        pending_from(items, from).len() == places.len(),
        forall|i: int|
            0 <= i < places.len() ==> pending_from(items, from)[i]
                == items[#[trigger] places[i]].id,
    decreases items.len() - from,
{
    if from >= items.len() {
        Seq::empty()
    } else {
        let rest = lemma_pending(items, from + 1);
        if is_to_be_downloaded(items[from].status) {
            let places = seq![from] + rest;
            assert forall|i: int| 0 <= i < places.len() implies from <= #[trigger] places[i]
                < items.len() && is_to_be_downloaded(items[places[i]].status) by {
                if i > 0 {
                    assert(places[i] == rest[i - 1]);
                }
            }
            assert forall|i: int, j: int| 0 <= i < j < places.len() implies places[i]
                < places[j] by {
                assert(places[j] == rest[j - 1]);
                if i > 0 {
                    assert(places[i] == rest[i - 1]);
                }
            }
            assert forall|at: int|
                from <= at < items.len() && is_to_be_downloaded(
                    (#[trigger] items[at]).status,
                ) implies places.contains(at) by {
                if at == from {
                    assert(places[0] == at);
                } else {
                    assert(rest.contains(at));
                    let i = choose|i: int| 0 <= i < rest.len() && rest[i] == at;
                    assert(places[i + 1] == at);
                }
            }
            assert forall|i: int| 0 <= i < places.len() implies pending_from(items, from)[i]
                == items[#[trigger] places[i]].id by {
                if i > 0 {
                    assert(places[i] == rest[i - 1]);
                }
            }
            places
        } else {
            rest
        }
    }
}

/// Whether an item of a status waits to be downloaded.
pub open spec fn is_to_be_downloaded(status: ItemStatus) -> bool {
    match status {
        ItemStatus::New | ItemStatus::Queued | ItemStatus::Failed => true,
        ItemStatus::DownloadingTorrent
        | ItemStatus::Submitted
        | ItemStatus::Paused
        | ItemStatus::Completed
        | ItemStatus::Deleted
        | ItemStatus::Ignored => false,
    }
}

/// Whether places are those of the items that wait to be downloaded, in their
/// order.
pub open spec fn are_pending_places(items: Seq<ItemView>, from: int, places: Seq<int>) -> bool {
    &&& forall|i: int|
        0 <= i < places.len() ==> from <= #[trigger] places[i] < items.len()
            && is_to_be_downloaded(items[places[i]].status)
    &&& forall|i: int, j: int| 0 <= i < j < places.len() ==> places[i] < places[j]
    &&& forall|at: int|
        from <= at < items.len() && is_to_be_downloaded((#[trigger] items[at]).status)
            ==> places.contains(at)
}

/// Downloaded automatically are all items that are new, queued or failed, and
/// no others, in the order in which they stand.
pub proof fn law_pending_items_wait_to_be_downloaded(items: Seq<ItemView>)
    ensures
        exists|places: Seq<int>| #[trigger]
            are_pending_places(items, 0, places) && pending_from(items, 0).len() == places.len()
                && (forall|i: int|
                0 <= i < places.len() ==> pending_from(items, 0)[i] == items[
                #[trigger] places[i]].id),
{
    let places = lemma_pending(items, 0);
    assert(are_pending_places(items, 0, places));
}

/// The items are shown by when they were first seen, the latest first, and all
/// of them are shown.
pub proof fn law_items_are_listed_latest_first(
    items: Seq<FeedItem>,
    listed: Seq<ItemView>,
    i: int,
    j: int,
)
    requires
        are_listed(items, listed),
        0 <= i < j < items.len(),
    ensures
        listed.len() == items.len(),
        !text_above(listed[j].first_seen_at, listed[i].first_seen_at),
        exists|k: int| 0 <= k < items.len() && listed[i] == (#[trigger] items[k])@,
        exists|k: int| 0 <= k < listed.len() && items[i]@ == #[trigger] listed[k],
{
    let order = choose|order: Seq<usize>| #[trigger]
        is_rearrangement(order, items.len() as int) && goes_down(first_seen(items), order)
            && listed == rearranged(items_view(items), order);
    let left = order[i] as int;
    let right = order[j] as int;
    assert(goes_before(first_seen(items), left, right));
    assert(listed[i] == items[left]@);
    assert(listed[j] == items[right]@);
    <String as Rank>::lemma_asymmetric(
        &first_seen(items)[left],
        &first_seen(items)[right],
    );
    assert(stands_in(order, i));
    let place = choose|k: int| 0 <= k < order.len() && #[trigger] order[k] == i;
    assert(listed[place] == items[i]@);
}

} // verus!
