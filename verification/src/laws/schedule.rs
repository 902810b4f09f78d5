//! When the feed is polled, and what a refresh leaves behind.

use vstd::prelude::*;

use crate::laws::merging::{is_known_item, is_new_item, law_merged_items_have_what_the_feed_gives};
use crate::models::{ParsedView, StateView};
use crate::outside::{rfc3339_of, rfc3339_text_of, LAST_MILLIS};
use crate::service::items::{has_key, keys_differ};
use crate::service::refresh::{fetch_failed, refresh_begun, takes_in};
use crate::service::state::{is_due, poll_ended, scheduled, scheduled_soon, InnerView};

verus! {

/// The next poll is as many minutes later as are set, but at least one and at
/// most a day; where nothing is downloaded automatically, there is none. All
/// else stays as it is.
pub proof fn law_next_poll_is_an_interval_later(inner: InnerView, now: int, minutes: int)
    requires
        now + 86_400_000 <= LAST_MILLIS,
        minutes == inner.state.config.poll_interval_minutes,
    ensures
        scheduled(inner, now) == (InnerView {
            next_poll_at: scheduled(inner, now).next_poll_at,
            ..inner
        }),
        !inner.state.config.auto_download_enabled ==> scheduled(inner, now).next_poll_at is None,
        inner.state.config.auto_download_enabled ==> {
            let next = scheduled(inner, now).next_poll_at;
            &&& 1 <= minutes <= 1440 ==> next == Some(rfc3339_text_of(now + minutes * 60_000))
            &&& minutes == 0 ==> next == Some(rfc3339_text_of(now + 60_000))
            &&& minutes > 1440 ==> next == Some(rfc3339_text_of(now + 86_400_000))
        },
{
}

/// A poll that is wanted soon is a second later.
pub proof fn law_soon_is_a_second_later(inner: InnerView, now: int)
    requires
        now + 1000 <= LAST_MILLIS,
    ensures
        scheduled_soon(inner, now) == (InnerView {
            next_poll_at: Some(rfc3339_text_of(now + 1000)),
            ..inner
        }),
{
}

/// A poll is due from its time on and not before, and never where no time, or
/// none that can be read, is set.
pub proof fn law_poll_is_due_from_its_time_on(
    text: Seq<char>,
    seconds: int,
    nanos: int,
    now: int,
)
    ensures
        !is_due(None, now),
        rfc3339_of(text) is None ==> !is_due(Some(text), now),
        rfc3339_of(text) == Some((seconds, nanos)) ==> (is_due(Some(text), now) <==> now * 1_000_000
            >= seconds * 1_000_000_000 + nanos),
{
}

/// A refresh needs the address of a feed and is not begun twice. Once begun,
/// the feed is being polled, from that time on and without an error.
pub proof fn law_refresh_is_begun_once(inner: InnerView, now: int)
    ensures
        inner.state.config.rss_url.len() == 0 ==> (refresh_begun(inner, now).0 is Refused)
            && refresh_begun(inner, now).1 == inner,
        inner.state.config.rss_url.len() > 0 && inner.polling ==> (refresh_begun(
            inner,
            now,
        ).0 is Busy) && refresh_begun(inner, now).1 == inner,
        inner.state.config.rss_url.len() > 0 && !inner.polling ==> (refresh_begun(
            inner,
            now,
        ).0 is Started) && refresh_begun(inner, now).1 == (InnerView {
            polling: true,
            last_poll_at: Some(rfc3339_text_of(now)),
            last_poll_error: None,
            ..inner
        }),
{
}

/// A feed that cannot be fetched ends the refresh with its error; the items and
/// all else but the next poll stay.
pub proof fn law_failed_fetch_is_kept_as_the_error(inner: InnerView, error: Seq<char>, now: int)
    ensures
        fetch_failed(inner, error, now) == (InnerView {
            polling: false,
            last_poll_error: Some(error),
            next_poll_at: scheduled(inner, now).next_poll_at,
            ..inner
        }),
{
}

/// A refresh ends once its items were to be saved: with the error of saving,
/// if there was one, and else with whatever error there was.
pub proof fn law_saving_ends_the_refresh(inner: InnerView, error: String, now: int)
    ensures
        scheduled(poll_ended(inner, Ok(())), now) == (InnerView {
            polling: false,
            next_poll_at: scheduled(inner, now).next_poll_at,
            ..inner
        }),
        scheduled(poll_ended(inner, Err(error)), now) == (InnerView {
            polling: false,
            last_poll_error: Some(error@),
            next_poll_at: scheduled(inner, now).next_poll_at,
            ..inner
        }),
{
}

/// A refresh merges the feed into the items and changes nothing else: known
/// items get what the feed gives for their keys, and the others of the feed
/// are new, for the folder that is configured.
pub proof fn law_refresh_merges_the_feed(
    before: InnerView,
    after: InnerView,
    parsed: Seq<ParsedView>,
    now: Seq<char>,
)
    requires
        takes_in(before, after, parsed, now),
        keys_differ(before.state.items),
    ensures
        after == (InnerView {
            state: StateView { items: after.state.items, ..before.state },
            ..before
        }),
        keys_differ(after.state.items),
        forall|i: int|
            0 <= i < before.state.items.len() ==> exists|j: int|
                0 <= j < after.state.items.len() && is_known_item(
                    #[trigger] before.state.items[i],
                    #[trigger] after.state.items[j],
                    parsed,
                    now,
                ),
        forall|k: int|
            0 <= k < parsed.len() ==> has_key(
                after.state.items,
                (#[trigger] parsed[k]).unique_key,
            ),
        forall|j: int|
            0 <= j < after.state.items.len() && !has_key(
                before.state.items,
                (#[trigger] after.state.items[j]).unique_key,
            ) ==> is_new_item(
                after.state.items[j],
                parsed,
                before.state.config.download_dir,
                now,
            ),
{
    law_merged_items_have_what_the_feed_gives(
        before.state.items,
        parsed,
        before.state.config.download_dir,
        now,
        after.state.items,
    );
}

} // verus!
