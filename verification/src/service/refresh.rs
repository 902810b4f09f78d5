//! Refreshing the feed: how a refresh begins, what the feed changes, and what
//! is done next.

use vstd::prelude::*;
use vstd::string::*;

use crate::clock::Moment;
use crate::models::{parsed_view, ParsedRssItem, ParsedView};
use crate::outside::{replaced_of, rfc3339_text_of, secret_pattern};
use crate::service::items::{
    are_latest_first, is_same_item, law_merging_keeps_items, law_sorting_keeps_items, merge_items,
    merged, pending_from,
};
use crate::service::state::{
    finish_polling, poll_ended, scheduled, update_schedule, InnerView, Service,
};
use crate::text::{joined, texts};
use crate::util::mask_url;

verus! {

/// How a refresh begins.
#[derive(Debug)]
pub enum RefreshStart {
    /// There is no feed to refresh.
    Refused(String),
    /// The feed is being refreshed already.
    Busy,
    /// The feed is to be fetched; with what is told of it.
    Started(String),
}

/// What is to be done next in a refresh.
#[derive(Debug)]
pub enum RefreshStep {
    /// What the service keeps is to be saved.
    Save,
    /// The items are to be looked after.
    LookAfter,
    /// These items are to be submitted, whatever comes of each; the refresh is
    /// over then.
    Submit(Vec<String>),
    /// The refresh is over.
    Finish,
    /// The refresh has failed.
    Fail(String),
}

/// How a refresh goes on, with what is told of it in the log and whether that
/// is an error.
#[derive(Debug)]
pub struct RefreshMove {
    pub step: RefreshStep,
    pub told: Option<(bool, String)>,
}

impl RefreshMove {
    /// Whether the refresh fails with an error, of which a message is told.
    pub open spec fn fails_telling(&self, error: Seq<char>, message: Seq<char>) -> bool {
        &&& self.step matches RefreshStep::Fail(failure) && failure@ == error
        &&& self.told matches Some((is_error, text)) && is_error && text@ == message
    }
}

/// What the service keeps while the feed is fetched from a time on.
pub open spec fn polling_since(inner: InnerView, now: Seq<char>) -> InnerView {
    InnerView { polling: true, last_poll_at: Some(now), last_poll_error: None, ..inner }
}

/// What the service keeps once the feed could not be fetched.
pub open spec fn fetch_failed(inner: InnerView, error: Seq<char>, now: int) -> InnerView {
    scheduled(InnerView { polling: false, last_poll_error: Some(error), ..inner }, now)
}

/// Whether the feed was taken in: its items are merged, and all else is as it
/// was.
pub open spec fn takes_in(
    before: InnerView,
    after: InnerView,
    parsed: Seq<ParsedView>,
    now: Seq<char>,
) -> bool {
    &&& after == before.with_items(after.state.items)
    &&& are_latest_first(
        merged(before.state.items, parsed, before.state.config.download_dir, now),
        after.state.items,
    )
}

/// What is known of how a refresh begins.
pub enum StartedView {
    Refused(Seq<char>),
    Busy,
    Started(Seq<char>),
}

/// The contents of how a refresh begins.
pub open spec fn started_view(start: RefreshStart) -> StartedView {
    match start {
        RefreshStart::Refused(message) => StartedView::Refused(message@),
        RefreshStart::Busy => StartedView::Busy,
        RefreshStart::Started(message) => StartedView::Started(message@),
    }
}

/// How a refresh begins at a time, and what the service keeps then.
pub open spec fn refresh_begun(inner: InnerView, now: int) -> (StartedView, InnerView) {
    if inner.state.config.rss_url.len() == 0 {
        (StartedView::Refused("尚未配置订阅，请先在配置页填写并保存 RSS 地址。"@), inner)
    } else if inner.polling {
        (StartedView::Busy, inner)
    } else {
        (
            StartedView::Started(
                "Refreshing RSS "@ + replaced_of(
                    secret_pattern(),
                    inner.state.config.rss_url,
                    "$1***"@,
                ),
            ),
            polling_since(inner, rfc3339_text_of(now)),
        )
    }
}

impl Service {
    /// Begins a refresh.
    pub fn begin_refresh(&mut self, now: &Moment) -> (r: RefreshStart)
        ensures
            final(self).same_place(*old(self)),
            (started_view(r), final(self).inner@) == refresh_begun(old(self).inner@, now.at()),
            ({
                let before = old(self).inner@;
                if before.state.config.rss_url.len() == 0 {
                    r matches RefreshStart::Refused(message) && message@
                        == "尚未配置订阅，请先在配置页填写并保存 RSS 地址。"@ && final(self).inner@ == before
                } else if before.polling {
                    r is Busy && final(self).inner@ == before
                } else {
                    r matches RefreshStart::Started(message) && message@ == "Refreshing RSS "@
                        + replaced_of(secret_pattern(), before.state.config.rss_url, "$1***"@)
                        && final(self).inner@ == polling_since(before, rfc3339_text_of(now.at()))
                }
            }),
    {
        if self.inner.state.config.rss_url.as_str().is_empty() {
            return RefreshStart::Refused(
                "尚未配置订阅，请先在配置页填写并保存 RSS 地址。".to_string(),
            );
        }
        if self.inner.polling {
            return RefreshStart::Busy;
        }
        self.inner.polling = true;
        self.inner.last_poll_at = Some(now.text());
        self.inner.last_poll_error = None;
        RefreshStart::Started(
            joined("Refreshing RSS ", &mask_url(&self.inner.state.config.rss_url)),
        )
    }

    /// Goes on with a refresh once fetching was tried: the items of the feed
    /// are taken in, or the refresh fails.
    pub fn feed_fetched(
        &mut self,
        fetched: &Result<Vec<ParsedRssItem>, String>,
        now: &Moment,
    ) -> (r: RefreshMove)
        ensures
            final(self).same_place(*old(self)),
            match *fetched {
                Ok(parsed) => r.step is Save && r.told is None && takes_in(
                    old(self).inner@,
                    final(self).inner@,
                    parsed_view(parsed@),
                    rfc3339_text_of(now.at()),
                ),
                Err(error) => r.fails_telling(error@, "RSS refresh failed: "@ + error@)
                    && final(self).inner@ == fetch_failed(old(self).inner@, error@, now.at()),
            },
    {
        match fetched {
            Ok(parsed) => {
                merge_items(
                    &mut self.inner.state.items,
                    parsed,
                    &self.inner.state.config.download_dir,
                    now,
                );
                RefreshMove { step: RefreshStep::Save, told: None }
            },
            Err(error) => {
                self.inner.polling = false;
                self.inner.last_poll_error = Some(error.clone());
                update_schedule(&mut self.inner, now);
                RefreshMove {
                    step: RefreshStep::Fail(error.clone()),
                    told: Some((true, joined("RSS refresh failed: ", error))),
                }
            },
        }
    }

    /// Goes on with a refresh once saving was tried: polling has ended, and
    /// the items are looked after, or the refresh fails.
    pub fn feed_saved(&mut self, saved: &Result<(), String>, now: &Moment) -> (r: RefreshMove)
        ensures
            final(self).same_place(*old(self)),
            final(self).inner@ == scheduled(poll_ended(old(self).inner@, *saved), now.at()),
            match *saved {
                Ok(()) => r.step is LookAfter && (r.told matches Some((error, message)) && !error
                    && message@ == "RSS refresh completed"@),
                Err(error) => r.fails_telling(error@, "RSS state could not be saved: "@ + error@),
            },
    {
        finish_polling(&mut self.inner, saved, now);
        match saved {
            Ok(()) => RefreshMove {
                step: RefreshStep::LookAfter,
                told: Some((false, "RSS refresh completed".to_string())),
            },
            Err(error) => RefreshMove {
                step: RefreshStep::Fail(error.clone()),
                told: Some((true, joined("RSS state could not be saved: ", error))),
            },
        }
    }

    /// Goes on with a refresh once the items were looked after: those that are
    /// to be downloaded are submitted, if that is wanted.
    pub fn items_looked_after(
        &self,
        looked: &Result<(), String>,
        auto_download: bool,
    ) -> (r: RefreshMove)
        ensures
            r.told is None,
            match *looked {
                Ok(()) => if auto_download {
                    r.step matches RefreshStep::Submit(ids) && texts(ids@) == pending_from(
                        self.inner@.state.items,
                        0,
                    )
                } else {
                    r.step is Finish
                },
                Err(error) => r.step matches RefreshStep::Fail(message) && message@ == error@,
            },
    {
        let step = match looked {
            Ok(()) => if auto_download {
                RefreshStep::Submit(self.pending_ids())
            } else {
                RefreshStep::Finish
            },
            Err(error) => RefreshStep::Fail(error.clone()),
        };
        RefreshMove { step, told: None }
    }
}

/// A feed that cannot be fetched changes no item, and the refresh is over.
pub proof fn law_failed_fetch_changes_no_item(inner: InnerView, error: Seq<char>, now: int)
    ensures
        fetch_failed(inner, error, now).state == inner.state,
        !fetch_failed(inner, error, now).polling,
        fetch_failed(inner, error, now).last_poll_error == Some(error),
{
}

/// A feed that is taken in takes no item away: whatever was there has its key
/// among the items afterwards, as has every item of the feed.
pub proof fn law_refresh_loses_no_item(
    before: InnerView,
    after: InnerView,
    parsed: Seq<ParsedView>,
    now: Seq<char>,
)
    requires
        takes_in(before, after, parsed, now),
    ensures
        after.state.config == before.state.config,
        before.state.items.len() <= after.state.items.len(),
        forall|i: int|
            0 <= i < before.state.items.len() ==> exists|j: int|
                0 <= j < after.state.items.len() && is_same_item(
                    #[trigger] before.state.items[i],
                    #[trigger] after.state.items[j],
                ),
{
    let all = merged(before.state.items, parsed, before.state.config.download_dir, now);
    law_merging_keeps_items(before.state.items, parsed, before.state.config.download_dir, now);
    law_sorting_keeps_items(all, after.state.items);
    assert forall|i: int| 0 <= i < before.state.items.len() implies exists|j: int|
        0 <= j < after.state.items.len() && is_same_item(
            #[trigger] before.state.items[i],
            #[trigger] after.state.items[j],
        ) by {
        assert(all.contains(all[i]));
        let j = choose|j: int| 0 <= j < after.state.items.len() && after.state.items[j] == all[i];
        assert(is_same_item(before.state.items[i], after.state.items[j]));
    }
}

} // verus!
