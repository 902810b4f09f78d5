//! The items: what the user does with them, how the feed changes them and how
//! they are shown.

use vstd::prelude::*;
use vstd::string::*;

use crate::bitcomet::control::{find_task, first_task};
use crate::clock::Moment;
use crate::models::{
    items_view, parsed_view, tasks_view, BitCometTask, FeedItem, ItemStatus, ItemView,
    ParsedRssItem, ParsedView, TaskView,
};
use crate::outside::{
    formatted_time_of, parse_formatted_time, parse_rfc2822, parse_rfc3339, rfc2822_of, rfc3339_of,
    rfc3339_text_of, same_text,
};
use crate::service::files::{folder_of_item, resolve_item_directory};
use crate::service::state::{
    find_item, item_place, lemma_find_item, schedule_soon, scheduled_soon, InnerView, Service,
};
use crate::sorting::{descending_order, goes_down, is_rearrangement, rearranged, stands_in};
use crate::store::fault_in;
use crate::text::{joined, outcome, texts};
use crate::torrent::{metadata_of, parse_metadata};
use crate::util::{item_id_for, item_id_of, PathFacts};

verus! {

/// The status of an item that is no longer ignored: it is queued where there
/// is something to download.
pub open spec fn restored_status(enclosure_url: Seq<char>) -> ItemStatus {
    if enclosure_url.len() == 0 {
        ItemStatus::New
    } else {
        ItemStatus::Queued
    }
}

/// The status of an item that is no longer ignored.
pub fn restored_item_status(enclosure_url: &str) -> (r: ItemStatus)
    ensures
        r == restored_status(enclosure_url@),
{
    if enclosure_url.is_empty() {
        ItemStatus::New
    } else {
        ItemStatus::Queued
    }
}

/// An item that is ignored from a time on.
pub open spec fn ignored(item: ItemView, now: Seq<char>) -> ItemView {
    ItemView {
        status: ItemStatus::Ignored,
        ignored_at: Some(now),
        updated_at: now,
        last_error: None,
        ..item
    }
}

/// An item that is no longer ignored from a time on.
pub open spec fn restored(item: ItemView, now: Seq<char>) -> ItemView {
    ItemView {
        status: restored_status(item.enclosure_url),
        ignored_at: None,
        updated_at: now,
        last_error: None,
        ..item
    }
}

/// An item that is tried again from a time on.
pub open spec fn retried(item: ItemView, now: Seq<char>) -> ItemView {
    ItemView { status: ItemStatus::Queued, updated_at: now, last_error: None, ..item }
}

/// An item whose task was stopped, or started, at a time.
pub open spec fn controlled(item: ItemView, pause: bool, now: Seq<char>) -> ItemView {
    ItemView {
        status: if pause {
            ItemStatus::Paused
        } else {
            ItemStatus::Submitted
        },
        updated_at: now,
        last_error: None,
        ..item
    }
}

/// An item whose task and files were deleted at a time.
pub open spec fn deleted(item: ItemView, now: Seq<char>) -> ItemView {
    ItemView {
        status: ItemStatus::Deleted,
        torrent_path: None,
        updated_at: now,
        last_error: None,
        ..item
    }
}

/// An item that is restored is as it was before it was ignored, but for its
/// status, its times and its error.
pub proof fn law_restoring_undoes_ignoring(item: ItemView, first: Seq<char>, second: Seq<char>)
    ensures
        restored(ignored(item, first), second) == (ItemView {
            status: restored_status(item.enclosure_url),
            ignored_at: None,
            updated_at: second,
            last_error: None,
            ..item
        }),
{
}

/// What came of an action on an item: the item, or why it was refused.
pub open spec fn item_outcome(r: Result<FeedItem, String>) -> Result<ItemView, Seq<char>> {
    match r {
        Ok(item) => Ok(item@),
        Err(message) => Err(message@),
    }
}

/// The items, with the first one that has an identifier changed.
pub open spec fn with_item(items: Seq<ItemView>, id: Seq<char>, item: ItemView) -> Seq<ItemView> {
    items.update(find_item(items, id, 0), item)
}

/// Whether there is an item with an identifier.
pub open spec fn has_item(items: Seq<ItemView>, id: Seq<char>) -> bool {
    find_item(items, id, 0) < items.len()
}

/// The item with an identifier, where there is one.
pub open spec fn item_with(items: Seq<ItemView>, id: Seq<char>) -> ItemView {
    items[find_item(items, id, 0)]
}

/// What comes of ignoring an item at a time: the item, or why it is refused,
/// and what the service keeps then.
pub open spec fn ignoring(inner: InnerView, id: Seq<char>, now: int) -> (
    Result<ItemView, Seq<char>>,
    InnerView,
) {
    let items = inner.state.items;
    let item = ignored(item_with(items, id), rfc3339_text_of(now));
    if has_item(items, id) {
        (Ok(item), inner.with_items(with_item(items, id, item)))
    } else {
        (Err("Item not found"@), inner)
    }
}

/// What comes of restoring an item at a time.
pub open spec fn restoring(inner: InnerView, id: Seq<char>, now: int) -> (
    Result<ItemView, Seq<char>>,
    InnerView,
) {
    let items = inner.state.items;
    let item = restored(item_with(items, id), rfc3339_text_of(now));
    let changed = inner.with_items(with_item(items, id, item));
    if !has_item(items, id) {
        (Err("Item not found"@), inner)
    } else if item_with(items, id).status != ItemStatus::Ignored {
        (Err("Only ignored items can be restored"@), inner)
    } else if inner.state.config.auto_download_enabled {
        (Ok(item), scheduled_soon(changed, now))
    } else {
        (Ok(item), changed)
    }
}

/// What comes of trying an item again at a time: why it is refused, if it is,
/// and what the service keeps then.
pub open spec fn retrying(inner: InnerView, id: Seq<char>, now: int) -> (
    Option<Seq<char>>,
    InnerView,
) {
    let items = inner.state.items;
    let item = retried(item_with(items, id), rfc3339_text_of(now));
    if !has_item(items, id) {
        (Some("Item not found"@), inner)
    } else if item_with(items, id).status != ItemStatus::Failed {
        (Some("Only failed items can be retried"@), inner)
    } else {
        (None, inner.with_items(with_item(items, id, item)))
    }
}

/// The item whose task is to be stopped, started or deleted, and the info hash
/// of the task, or why there is none.
pub open spec fn controlling(items: Seq<ItemView>, id: Seq<char>) -> Result<
    (ItemView, Seq<char>),
    Seq<char>,
> {
    if !has_item(items, id) {
        Err("Item not found"@)
    } else {
        match item_with(items, id).info_hash {
            Some(info_hash) => Ok((item_with(items, id), info_hash)),
            None => Err("任务尚无 InfoHash"@),
        }
    }
}

/// What is done with an item.
#[derive(Clone, Copy, Debug, PartialEq, Eq, Structural)]
pub enum ItemAction {
    Ignored,
    Restored,
    Paused,
    Resumed,
    Deleted,
}

/// What is told of an action on an item.
pub fn action_message(action: ItemAction, title: &str) -> (r: String)
    ensures
        r@ == match action {
            ItemAction::Ignored => "Ignored item "@,
            ItemAction::Restored => "Restored ignored item "@,
            ItemAction::Paused => "Paused BitComet task "@,
            ItemAction::Resumed => "Resumed BitComet task "@,
            ItemAction::Deleted => "Deleted BitComet task and files "@,
        } + title@,
{
    match action {
        ItemAction::Ignored => joined("Ignored item ", title),
        ItemAction::Restored => joined("Restored ignored item ", title),
        ItemAction::Paused => joined("Paused BitComet task ", title),
        ItemAction::Resumed => joined("Resumed BitComet task ", title),
        ItemAction::Deleted => joined("Deleted BitComet task and files ", title),
    }
}

fn put_item(items: &mut Vec<FeedItem>, at: usize, item: FeedItem)
    requires
        at < old(items)@.len(),
    ensures
        items_view(final(items)@) == items_view(old(items)@).update(at as int, item@),
{
    let ghost before = items@;
    items.set(at, item);
    assert(items_view(items@) =~= items_view(before).update(at as int, item@));
}

impl Service {
    /// The item with an identifier.
    pub fn item(&self, id: &str) -> (r: Result<FeedItem, String>)
        ensures
            item_outcome(r) == if has_item(self.inner@.state.items, id@) {
                Ok(item_with(self.inner@.state.items, id@))
            } else {
                Err("Item not found"@)
            },
    {
        match item_place(&self.inner.state.items, id) {
            Some(at) => Ok(self.inner.state.items[at].clone()),
            None => Err("Item not found".to_string()),
        }
    }

    /// Puts an item in the place of the one with its identifier.
    pub fn replace_item(&mut self, item: &FeedItem) -> (r: Result<(), String>)
        ensures
            final(self).same_place(*old(self)),
            ({
                let items = old(self).inner@.state.items;
                if has_item(items, item@.id) {
                    r is Ok && final(self).inner@ == old(self).inner@.with_items(
                        with_item(items, item@.id, item@),
                    )
                } else {
                    r matches Err(message) && message@ == "Item not found"@ && final(self).inner@
                        == old(self).inner@
                }
            }),
    {
        match item_place(&self.inner.state.items, &item.id) {
            Some(at) => {
                put_item(&mut self.inner.state.items, at, item.clone());
                Ok(())
            },
            None => Err("Item not found".to_string()),
        }
    }

    /// Ignores an item.
    pub fn ignore_item(&mut self, id: &str, now: &Moment) -> (r: Result<FeedItem, String>)
        ensures
            final(self).same_place(*old(self)),
            (item_outcome(r), final(self).inner@) == ignoring(old(self).inner@, id@, now.at()),
            ({
                let items = old(self).inner@.state.items;
                let item = ignored(item_with(items, id@), rfc3339_text_of(now.at()));
                if has_item(items, id@) {
                    item_outcome(r) == Ok::<_, Seq<char>>(item) && final(self).inner@ == old(self).inner@.with_items(with_item(items, id@, item))
                } else {
                    item_outcome(r) == Err::<ItemView, _>("Item not found"@) && final(self).inner@
                        == old(self).inner@
                }
            }),
    {
        match item_place(&self.inner.state.items, id) {
            Some(at) => {
                let mut item = self.inner.state.items[at].clone();
                item.status = ItemStatus::Ignored;
                item.ignored_at = Some(now.text());
                item.updated_at = now.text();
                item.last_error = None;
                put_item(&mut self.inner.state.items, at, item.clone());
                Ok(item)
            },
            None => Err("Item not found".to_string()),
        }
    }

    /// Restores an item that was ignored. Where downloads are automatic, the
    /// feed is polled soon.
    pub fn unignore_item(&mut self, id: &str, now: &Moment) -> (r: Result<FeedItem, String>)
        ensures
            final(self).same_place(*old(self)),
            (item_outcome(r), final(self).inner@) == restoring(old(self).inner@, id@, now.at()),
            ({
                let before = old(self).inner@;
                let items = before.state.items;
                let item = restored(item_with(items, id@), rfc3339_text_of(now.at()));
                let changed = before.with_items(with_item(items, id@, item));
                if !has_item(items, id@) {
                    item_outcome(r) == Err::<ItemView, _>("Item not found"@) && final(self).inner@
                        == before
                } else if item_with(items, id@).status != ItemStatus::Ignored {
                    item_outcome(r) == Err::<ItemView, _>("Only ignored items can be restored"@)
                        && final(self).inner@ == before
                } else {
                    item_outcome(r) == Ok::<_, Seq<char>>(item) && final(self).inner@ == if
                        before.state.config.auto_download_enabled {
                        scheduled_soon(changed, now.at())
                    } else {
                        changed
                    }
                }
            }),
    {
        match item_place(&self.inner.state.items, id) {
            Some(at) => {
                let mut item = self.inner.state.items[at].clone();
                if item.status != ItemStatus::Ignored {
                    return Err("Only ignored items can be restored".to_string());
                }
                item.status = restored_item_status(&item.enclosure_url);
                item.ignored_at = None;
                item.updated_at = now.text();
                item.last_error = None;
                put_item(&mut self.inner.state.items, at, item.clone());
                if self.inner.state.config.auto_download_enabled {
                    schedule_soon(&mut self.inner, now);
                }
                Ok(item)
            },
            None => Err("Item not found".to_string()),
        }
    }

    /// Queues an item that failed, to be tried again.
    pub fn retry_item(&mut self, id: &str, now: &Moment) -> (r: Result<(), String>)
        ensures
            final(self).same_place(*old(self)),
            (fault_in(r), final(self).inner@) == retrying(old(self).inner@, id@, now.at()),
            ({
                let items = old(self).inner@.state.items;
                let item = retried(item_with(items, id@), rfc3339_text_of(now.at()));
                if !has_item(items, id@) {
                    r matches Err(message) && message@ == "Item not found"@ && final(self).inner@
                        == old(self).inner@
                } else if item_with(items, id@).status != ItemStatus::Failed {
                    r matches Err(message) && message@ == "Only failed items can be retried"@
                        && final(self).inner@ == old(self).inner@
                } else {
                    r is Ok && final(self).inner@ == old(self).inner@.with_items(
                        with_item(items, id@, item),
                    )
                }
            }),
    {
        match item_place(&self.inner.state.items, id) {
            Some(at) => {
                let mut item = self.inner.state.items[at].clone();
                if item.status != ItemStatus::Failed {
                    return Err("Only failed items can be retried".to_string());
                }
                item.status = ItemStatus::Queued;
                item.updated_at = now.text();
                item.last_error = None;
                put_item(&mut self.inner.state.items, at, item);
                Ok(())
            },
            None => Err("Item not found".to_string()),
        }
    }

    /// The item with an identifier, and the info hash of its task, which is
    /// to be stopped, started or deleted.
    pub fn control_item(&self, id: &str) -> (r: Result<(FeedItem, String), String>)
        ensures
            match controlling(self.inner@.state.items, id@) {
                Ok((item, info_hash)) => r matches Ok((found, hash)) && found@ == item && hash@
                    == info_hash,
                Err(message) => r matches Err(told) && told@ == message,
            },
            ({
                let items = self.inner@.state.items;
                match r {
                    Ok((item, info_hash)) => has_item(items, id@) && item@ == item_with(
                        items,
                        id@,
                    ) && item@.info_hash == Some(info_hash@),
                    Err(message) => if has_item(items, id@) {
                        item_with(items, id@).info_hash is None && message@
                            == "任务尚无 InfoHash"@
                    } else {
                        message@ == "Item not found"@
                    },
                }
            }),
    {
        match item_place(&self.inner.state.items, id) {
            Some(at) => {
                let item = self.inner.state.items[at].clone();
                match &item.info_hash {
                    Some(info_hash) => {
                        let info_hash = info_hash.clone();
                        Ok((item, info_hash))
                    },
                    None => Err("任务尚无 InfoHash".to_string()),
                }
            },
            None => Err("Item not found".to_string()),
        }
    }

    fn set_controlled(&mut self, item: FeedItem, pause: bool, now: &Moment) -> (r: Result<
        FeedItem,
        String,
    >)
        ensures
            final(self).same_place(*old(self)),
            control_ends(
                old(self).inner@,
                final(self).inner@,
                controlled(item@, pause, rfc3339_text_of(now.at())),
                r,
            ),
    {
        let mut item = item;
        item.status = if pause {
            ItemStatus::Paused
        } else {
            ItemStatus::Submitted
        };
        item.updated_at = now.text();
        item.last_error = None;
        match self.replace_item(&item) {
            Ok(()) => Ok(item),
            Err(message) => Err(message),
        }
    }

    /// Takes note that the task of an item was stopped.
    pub fn pause_item(&mut self, item: FeedItem, now: &Moment) -> (r: Result<FeedItem, String>)
        ensures
            final(self).same_place(*old(self)),
            control_ends(
                old(self).inner@,
                final(self).inner@,
                controlled(item@, true, rfc3339_text_of(now.at())),
                r,
            ),
    {
        self.set_controlled(item, true, now)
    }

    /// Takes note that the task of an item was started.
    pub fn resume_item(&mut self, item: FeedItem, now: &Moment) -> (r: Result<FeedItem, String>)
        ensures
            final(self).same_place(*old(self)),
            control_ends(
                old(self).inner@,
                final(self).inner@,
                controlled(item@, false, rfc3339_text_of(now.at())),
                r,
            ),
    {
        self.set_controlled(item, false, now)
    }

    /// Takes note that the task and the files of an item were deleted.
    pub fn delete_item_task(&mut self, item: FeedItem, now: &Moment) -> (r: Result<
        FeedItem,
        String,
    >)
        ensures
            final(self).same_place(*old(self)),
            control_ends(
                old(self).inner@,
                final(self).inner@,
                deleted(item@, rfc3339_text_of(now.at())),
                r,
            ),
    {
        let mut item = item;
        item.status = ItemStatus::Deleted;
        item.torrent_path = None;
        item.updated_at = now.text();
        item.last_error = None;
        match self.replace_item(&item) {
            Ok(()) => Ok(item),
            Err(message) => Err(message),
        }
    }

    /// The folder of an item that is to be opened, given what the file system
    /// says of the place where it was saved and of the folder that is
    /// configured.
    pub fn open_item_directory(&self, id: &str, location: &PathFacts, configured: &PathFacts) -> (r:
        Result<String, String>)
        ensures
            outcome(r) == ({
                let items = self.inner@.state.items;
                let item = item_with(items, id@);
                if !has_item(items, id@) {
                    Err("Item not found"@)
                } else {
                    match folder_of_item(
                        item.save_location,
                        item.save_name,
                        *location,
                        *configured,
                    ) {
                        Some(folder) => Ok(folder),
                        None => Err("Download directory does not exist"@),
                    }
                }
            }),
    {
        match item_place(&self.inner.state.items, id) {
            Some(at) => {
                let item = &self.inner.state.items[at];
                match resolve_item_directory(
                    &item.save_location,
                    &item.save_name,
                    location,
                    configured,
                ) {
                    Some(folder) => Ok(folder),
                    None => Err("Download directory does not exist".to_string()),
                }
            },
            None => Err("Item not found".to_string()),
        }
    }
}

/// Whether an action on a task ended as it should: its item is put in place,
/// unless there is none.
pub open spec fn control_ends(
    before: InnerView,
    after: InnerView,
    item: ItemView,
    r: Result<FeedItem, String>,
) -> bool {
    if has_item(before.state.items, item.id) {
        item_outcome(r) == Ok::<_, Seq<char>>(item) && after == before.with_items(
            with_item(before.state.items, item.id, item),
        )
    } else {
        item_outcome(r) == Err::<ItemView, _>("Item not found"@) && after == before
    }
}

/// Whether two lists have the same items in the same places, but for one that
/// has an identifier.
pub open spec fn same_but_one(before: Seq<ItemView>, after: Seq<ItemView>, id: Seq<char>) -> bool {
    &&& before.len() == after.len()
    &&& forall|i: int|
        0 <= i < before.len() && i != find_item(before, id, 0) ==> #[trigger] after[i] == before[i]
}

/// A change of one item leaves all others as they are.
pub proof fn law_one_item_changes(items: Seq<ItemView>, id: Seq<char>, item: ItemView)
    requires
        has_item(items, id),
        item.id == id,
    ensures
        same_but_one(items, with_item(items, id, item), id),
        find_item(with_item(items, id, item), id, 0) == find_item(items, id, 0),
        item_with(with_item(items, id, item), id) == item,
{
    lemma_find_item(items, id, 0);
    let after = with_item(items, id, item);
    lemma_find_item(after, id, 0);
    let at = find_item(items, id, 0);
    let found = find_item(after, id, 0);
    if found < at {
        assert(after[found] == items[found]);
    }
    assert(after[at].id == id);
}

/// An item as the feed changes it: with what the feed has now, but nothing
/// that the feed leaves empty.
pub open spec fn refreshed(item: ItemView, parsed: ParsedView, now: Seq<char>) -> ItemView {
    ItemView {
        title: if parsed.title.len() > 0 {
            parsed.title
        } else {
            item.title
        },
        link: if parsed.link.len() > 0 {
            parsed.link
        } else {
            item.link
        },
        guid: if parsed.guid.len() > 0 {
            parsed.guid
        } else {
            item.guid
        },
        pub_date: if parsed.pub_date.len() > 0 {
            parsed.pub_date
        } else {
            item.pub_date
        },
        total_bytes: if parsed.total_bytes is Some {
            parsed.total_bytes
        } else {
            item.total_bytes
        },
        enclosure_url: if parsed.enclosure_url.len() > 0 {
            parsed.enclosure_url
        } else {
            item.enclosure_url
        },
        updated_at: now,
        ..item
    }
}

/// An item that the feed has for the first time.
pub open spec fn new_item(parsed: ParsedView, download_dir: Seq<char>, now: Seq<char>) -> ItemView {
    ItemView {
        id: item_id_of(parsed.unique_key),
        unique_key: parsed.unique_key,
        title: parsed.title,
        link: parsed.link,
        guid: parsed.guid,
        pub_date: parsed.pub_date,
        enclosure_url: parsed.enclosure_url,
        status: restored_status(parsed.enclosure_url),
        download_dir,
        torrent_path: None,
        info_hash: None,
        save_name: None,
        save_location: None,
        total_bytes: parsed.total_bytes,
        first_seen_at: now,
        updated_at: now,
        submitted_at: None,
        completed_at: None,
        ignored_at: None,
        last_error: None,
    }
}

/// The first item with a key, from one on, or the number of items.
pub open spec fn find_key(items: Seq<ItemView>, key: Seq<char>, from: int) -> int
    decreases items.len() - from,
{
    if from < 0 || from >= items.len() {
        items.len() as int
    } else if items[from].unique_key == key {
        from
    } else {
        find_key(items, key, from + 1)
    }
}

/// The items with one more item of the feed taken in.
pub open spec fn taken_in(
    items: Seq<ItemView>,
    parsed: ParsedView,
    download_dir: Seq<char>,
    now: Seq<char>,
) -> Seq<ItemView> {
    let at = find_key(items, parsed.unique_key, 0);
    if at < items.len() {
        items.update(at, refreshed(items[at], parsed, now))
    } else {
        items.push(new_item(parsed, download_dir, now))
    }
}

/// The items with the items of the feed taken in, one after the other.
pub open spec fn merged(
    items: Seq<ItemView>,
    parsed: Seq<ParsedView>,
    download_dir: Seq<char>,
    now: Seq<char>,
) -> Seq<ItemView>
    decreases parsed.len(),
{
    if parsed.len() == 0 {
        items
    } else {
        taken_in(
            merged(items, parsed.drop_last(), download_dir, now),
            parsed.last(),
            download_dir,
            now,
        )
    }
}

/// The seconds of the first point in time that there is.
pub open spec fn first_time(
    first: Option<i64>,
    second: Option<i64>,
    third: Option<i64>,
    fourth: Option<i64>,
) -> i64 {
    match first {
        Some(seconds) => seconds,
        None => match second {
            Some(seconds) => seconds,
            None => match third {
                Some(seconds) => seconds,
                None => match fourth {
                    Some(seconds) => seconds,
                    None => 0,
                },
            },
        },
    }
}

/// The seconds of a point in time in the format of RFC 3339.
pub open spec fn rfc3339_seconds(text: Seq<char>) -> Option<i64> {
    match rfc3339_of(text) {
        Some((seconds, _)) => Some(seconds as i64),
        None => None,
    }
}

/// When an item was published, by one of three formats, else when it was
/// first seen.
pub open spec fn timestamp_of(item: ItemView) -> i64 {
    first_time(
        rfc2822_of(item.pub_date),
        rfc3339_seconds(item.pub_date),
        formatted_time_of(item.pub_date, "%Y-%m-%dT%H:%M:%S%.f"@),
        rfc3339_seconds(item.first_seen_at),
    )
}

/// Chooses the first point in time that there is.
pub fn choose_time(
    first: Option<i64>,
    second: Option<i64>,
    third: Option<i64>,
    fourth: Option<i64>,
) -> (r: i64)
    ensures
        r == first_time(first, second, third, fourth),
{
    match (first, second, third, fourth) {
        (Some(seconds), _, _, _) => seconds,
        (None, Some(seconds), _, _) => seconds,
        (None, None, Some(seconds), _) => seconds,
        (None, None, None, Some(seconds)) => seconds,
        (None, None, None, None) => 0,
    }
}

fn read_rfc3339_seconds(text: &str) -> (r: Option<i64>)
    ensures
        r == rfc3339_seconds(text@),
{
    match parse_rfc3339(text) {
        Some((seconds, _)) => Some(seconds),
        None => None,
    }
}

/// Works out when an item was published.
pub fn rss_timestamp(item: &FeedItem) -> (r: i64)
    ensures
        r == timestamp_of(item@),
{
    choose_time(
        parse_rfc2822(&item.pub_date),
        read_rfc3339_seconds(&item.pub_date),
        parse_formatted_time(&item.pub_date, "%Y-%m-%dT%H:%M:%S%.f"),
        read_rfc3339_seconds(&item.first_seen_at),
    )
}

/// When each of the items was published.
pub open spec fn timestamps(items: Seq<ItemView>) -> Seq<i64> {
    Seq::new(items.len(), |i: int| timestamp_of(items[i]))
}

/// Whether items are others in the order in which they were published, the
/// latest first.
pub open spec fn are_latest_first(items: Seq<ItemView>, sorted: Seq<ItemView>) -> bool {
    exists|order: Seq<usize>| #[trigger]
        is_rearrangement(order, items.len() as int) && goes_down(timestamps(items), order) && sorted
            == rearranged(items, order)
}

fn key_place(items: &Vec<FeedItem>, key: &str) -> (r: Option<usize>)
    ensures
        match r {
            Some(at) => at < items@.len() && find_key(items_view(items@), key@, 0) == at,
            None => find_key(items_view(items@), key@, 0) == items@.len(),
        },
{
    let mut i: usize = 0;
    while i < items.len()
        invariant
            i <= items@.len(),
            find_key(items_view(items@), key@, 0) == find_key(items_view(items@), key@, i as int),
        decreases items@.len() - i,
    {
        if same_text(&items[i].unique_key, key) {
            return Some(i);
        }
        i += 1;
    }
    None
}

fn take_in(items: &mut Vec<FeedItem>, parsed: &ParsedRssItem, download_dir: &str, now: &Moment)
    ensures
        items_view(final(items)@) == taken_in(
            items_view(old(items)@),
            parsed@,
            download_dir@,
            rfc3339_text_of(now.at()),
        ),
{
    let ghost before = items@;
    if let Some(at) = key_place(items, &parsed.unique_key) {
        let mut item = items[at].clone();
        if !parsed.title.as_str().is_empty() {
            item.title = parsed.title.clone();
        }
        if !parsed.link.as_str().is_empty() {
            item.link = parsed.link.clone();
        }
        if !parsed.guid.as_str().is_empty() {
            item.guid = parsed.guid.clone();
        }
        if !parsed.pub_date.as_str().is_empty() {
            item.pub_date = parsed.pub_date.clone();
        }
        if parsed.total_bytes.is_some() {
            item.total_bytes = parsed.total_bytes;
        }
        if !parsed.enclosure_url.as_str().is_empty() {
            item.enclosure_url = parsed.enclosure_url.clone();
        }
        item.updated_at = now.text();
        put_item(items, at, item);
        return;
    }
    let item = FeedItem {
        id: item_id_for(&parsed.unique_key),
        unique_key: parsed.unique_key.clone(),
        title: parsed.title.clone(),
        link: parsed.link.clone(),
        guid: parsed.guid.clone(),
        pub_date: parsed.pub_date.clone(),
        status: restored_item_status(&parsed.enclosure_url),
        enclosure_url: parsed.enclosure_url.clone(),
        download_dir: download_dir.to_string(),
        torrent_path: None,
        info_hash: None,
        save_name: None,
        save_location: None,
        total_bytes: parsed.total_bytes,
        first_seen_at: now.text(),
        updated_at: now.text(),
        submitted_at: None,
        completed_at: None,
        ignored_at: None,
        last_error: None,
    };
    items.push(item);
    assert(items_view(items@) =~= items_view(before).push(item@));
}

fn reorder(items: &Vec<FeedItem>, order: &Vec<usize>) -> (r: Vec<FeedItem>)
    requires
        is_rearrangement(order@, items@.len() as int),
    ensures
        items_view(r@) == rearranged(items_view(items@), order@),
{
    let mut sorted: Vec<FeedItem> = Vec::new();
    let mut i: usize = 0;
    while i < order.len()
        invariant
            i <= order@.len(),
            is_rearrangement(order@, items@.len() as int),
            sorted@.len() == i,
            forall|j: int| 0 <= j < i ==> (#[trigger] sorted@[j])@ == items@[order@[j] as int]@,
        decreases order@.len() - i,
    {
        sorted.push(items[order[i]].clone());
        i += 1;
    }
    assert(items_view(sorted@) =~= rearranged(items_view(items@), order@));
    sorted
}

/// Takes the items of the feed in, and sorts all items by when they were
/// published.
pub fn merge_items(
    items: &mut Vec<FeedItem>,
    parsed: &Vec<ParsedRssItem>,
    download_dir: &str,
    now: &Moment,
)
    ensures
        are_latest_first(
            merged(
                items_view(old(items)@),
                parsed_view(parsed@),
                download_dir@,
                rfc3339_text_of(now.at()),
            ),
            items_view(final(items)@),
        ),
{
    let ghost before = items_view(items@);
    let ghost view = parsed_view(parsed@);
    let ghost time = rfc3339_text_of(now.at());
    let mut i: usize = 0;
    assert(view.take(0) =~= Seq::empty());
    while i < parsed.len()
        invariant
            i <= parsed@.len(),
            view == parsed_view(parsed@),
            time == rfc3339_text_of(now.at()),
            items_view(items@) == merged(before, view.take(i as int), download_dir@, time),
        decreases parsed@.len() - i,
    {
        assert(view.take(i + 1).drop_last() =~= view.take(i as int));
        take_in(items, &parsed[i], download_dir, now);
        i += 1;
    }
    assert(view.take(i as int) =~= view);
    let ghost all = items_view(items@);
    let mut times: Vec<i64> = Vec::new();
    let mut i: usize = 0;
    while i < items.len()
        invariant
            i <= items@.len(),
            all == items_view(items@),
            times@.len() == i,
            forall|j: int| 0 <= j < i ==> #[trigger] times@[j] == timestamp_of(all[j]),
        decreases items@.len() - i,
    {
        times.push(rss_timestamp(&items[i]));
        i += 1;
    }
    assert(times@ =~= timestamps(all));
    let order = descending_order(&times);
    let sorted = reorder(items, &order);
    *items = sorted;
    assert(is_rearrangement(order@, all.len() as int));
}

/// Whether an item is another that the feed may have changed since: the same
/// in all that the feed does not give.
pub open spec fn is_same_item(before: ItemView, after: ItemView) -> bool {
    &&& after.id == before.id
    &&& after.unique_key == before.unique_key
    &&& after.status == before.status
    &&& after.download_dir == before.download_dir
    &&& after.torrent_path == before.torrent_path
    &&& after.info_hash == before.info_hash
    &&& after.save_name == before.save_name
    &&& after.save_location == before.save_location
    &&& after.first_seen_at == before.first_seen_at
    &&& after.submitted_at == before.submitted_at
    &&& after.completed_at == before.completed_at
    &&& after.ignored_at == before.ignored_at
    &&& after.last_error == before.last_error
}

/// Whether no two items have the same key.
pub open spec fn keys_differ(items: Seq<ItemView>) -> bool {
    forall|i: int, j: int|
        0 <= i < j < items.len() ==> (#[trigger] items[i]).unique_key != (
        #[trigger] items[j]).unique_key
}

/// Whether an item has a key.
pub open spec fn has_key(items: Seq<ItemView>, key: Seq<char>) -> bool {
    exists|i: int| 0 <= i < items.len() && (#[trigger] items[i]).unique_key == key
}

/// The first item with a key has it, and none before it does.
pub proof fn lemma_find_key(items: Seq<ItemView>, key: Seq<char>, from: int)
    requires
        0 <= from <= items.len(),
    ensures
        from <= find_key(items, key, from) <= items.len(),
        find_key(items, key, from) < items.len() ==> items[find_key(items, key, from)].unique_key
            == key,
        forall|i: int|
            from <= i < find_key(items, key, from) ==> (#[trigger] items[i]).unique_key != key,
    decreases items.len() - from,
{
    if from < items.len() && items[from].unique_key != key {
        lemma_find_key(items, key, from + 1);
    }
}

/// The feed takes nothing away: every item stays in its place, with all that
/// the feed does not give. Keys that differ go on to differ, and every item
/// of the feed is there.
pub proof fn law_merging_keeps_items(
    items: Seq<ItemView>,
    parsed: Seq<ParsedView>,
    download_dir: Seq<char>,
    now: Seq<char>,
)
    ensures
        items.len() <= merged(items, parsed, download_dir, now).len(),
        forall|i: int|
            0 <= i < items.len() ==> is_same_item(
                #[trigger] items[i],
                merged(items, parsed, download_dir, now)[i],
            ),
        keys_differ(items) ==> keys_differ(merged(items, parsed, download_dir, now)),
        forall|k: int|
            0 <= k < parsed.len() ==> has_key(
                merged(items, parsed, download_dir, now),
                (#[trigger] parsed[k]).unique_key,
            ),
    decreases parsed.len(),
{
    if parsed.len() > 0 {
        let rest = parsed.drop_last();
        law_merging_keeps_items(items, rest, download_dir, now);
        let before = merged(items, rest, download_dir, now);
        let after = merged(items, parsed, download_dir, now);
        let key = parsed.last().unique_key;
        lemma_find_key(before, key, 0);
        assert forall|i: int| 0 <= i < before.len() implies is_same_item(
            #[trigger] before[i],
            after[i],
        ) by {}
        assert forall|i: int| 0 <= i < items.len() implies is_same_item(
            #[trigger] items[i],
            after[i],
        ) by {
            assert(is_same_item(before[i], after[i]));
        }
        let at = find_key(before, key, 0);
        assert(after[at].unique_key == key);
        assert forall|k: int| 0 <= k < parsed.len() implies has_key(
            after,
            (#[trigger] parsed[k]).unique_key,
        ) by {
            if k < rest.len() {
                assert(rest[k] == parsed[k]);
                let i = choose|i: int|
                    0 <= i < before.len() && (#[trigger] before[i]).unique_key
                        == parsed[k].unique_key;
                assert(after[i].unique_key == parsed[k].unique_key);
            }
        }
        if keys_differ(items) {
            assert forall|i: int, j: int| 0 <= i < j < after.len() implies (
            #[trigger] after[i]).unique_key != (#[trigger] after[j]).unique_key by {
                if j < before.len() {
                    assert(before[i].unique_key != before[j].unique_key);
                } else {
                    assert(before[i].unique_key != key);
                }
            }
        }
    }
}

/// Taking the same feed in again adds no item.
pub proof fn law_merging_again_adds_nothing(
    items: Seq<ItemView>,
    parsed: Seq<ParsedView>,
    download_dir: Seq<char>,
    first: Seq<char>,
    second: Seq<char>,
)
    ensures
        merged(
            merged(items, parsed, download_dir, first),
            parsed,
            download_dir,
            second,
        ).len() == merged(items, parsed, download_dir, first).len(),
{
    law_merging_keeps_items(items, parsed, download_dir, first);
    lemma_known_keys_add_nothing(
        merged(items, parsed, download_dir, first),
        parsed,
        download_dir,
        second,
    );
}

proof fn lemma_known_keys_add_nothing(
    items: Seq<ItemView>,
    parsed: Seq<ParsedView>,
    download_dir: Seq<char>,
    now: Seq<char>,
)
    requires
        forall|k: int| 0 <= k < parsed.len() ==> has_key(items, (#[trigger] parsed[k]).unique_key),
    ensures
        merged(items, parsed, download_dir, now).len() == items.len(),
    decreases parsed.len(),
{
    if parsed.len() > 0 {
        let rest = parsed.drop_last();
        assert forall|k: int| 0 <= k < rest.len() implies has_key(
            items,
            (#[trigger] rest[k]).unique_key,
        ) by {
            assert(rest[k] == parsed[k]);
        }
        lemma_known_keys_add_nothing(items, rest, download_dir, now);
        law_merging_keeps_items(items, rest, download_dir, now);
        let before = merged(items, rest, download_dir, now);
        let key = parsed.last().unique_key;
        assert(parsed[parsed.len() - 1].unique_key == key);
        let i = choose|i: int| 0 <= i < items.len() && (#[trigger] items[i]).unique_key == key;
        assert(before[i].unique_key == key);
        lemma_find_key(before, key, 0);
    }
}

/// Sorting takes no item away, adds none, and lets none become another: keys
/// that differ go on to differ.
pub proof fn law_sorting_keeps_items(items: Seq<ItemView>, sorted: Seq<ItemView>)
    requires
        are_latest_first(items, sorted),
    ensures
        sorted.len() == items.len(),
        forall|item: ItemView| #[trigger] items.contains(item) <==> sorted.contains(item),
        keys_differ(items) ==> keys_differ(sorted),
{
    let order = choose|order: Seq<usize>| #[trigger]
        is_rearrangement(order, items.len() as int) && goes_down(timestamps(items), order) && sorted
            == rearranged(items, order);
    assert forall|item: ItemView| #[trigger] items.contains(item) <==> sorted.contains(item) by {
        if items.contains(item) {
            let at = choose|i: int| 0 <= i < items.len() && items[i] == item;
            assert(stands_in(order, at));
            let place = choose|i: int| 0 <= i < order.len() && #[trigger] order[i] == at;
            assert(sorted[place] == item);
        }
        if sorted.contains(item) {
            let at = choose|i: int| 0 <= i < sorted.len() && sorted[i] == item;
            assert(items[order[at] as int] == item);
        }
    }
    if keys_differ(items) {
        assert forall|i: int, j: int| 0 <= i < j < sorted.len() implies (
        #[trigger] sorted[i]).unique_key != (#[trigger] sorted[j]).unique_key by {
            let left = order[i] as int;
            let right = order[j] as int;
            assert(order[i] != order[j]);
            if left < right {
                assert(items[left].unique_key != items[right].unique_key);
            } else {
                assert(items[right].unique_key != items[left].unique_key);
            }
        }
    }
}

/// When each of the items was first seen.
pub open spec fn first_seen(items: Seq<FeedItem>) -> Seq<String> {
    Seq::new(items.len(), |i: int| items[i].first_seen_at)
}

/// Whether items are others in the order in which they were first seen, the
/// latest first.
pub open spec fn are_listed(items: Seq<FeedItem>, listed: Seq<ItemView>) -> bool {
    exists|order: Seq<usize>| #[trigger]
        is_rearrangement(order, items.len() as int) && goes_down(first_seen(items), order) && listed
            == rearranged(items_view(items), order)
}

/// Whether an item is to be downloaded.
pub open spec fn is_pending(status: ItemStatus) -> bool {
    status == ItemStatus::New || status == ItemStatus::Queued || status == ItemStatus::Failed
}

/// The identifiers of the items, from one on, that are to be downloaded.
pub open spec fn pending_from(items: Seq<ItemView>, from: int) -> Seq<Seq<char>>
    decreases items.len() - from,
{
    if from < 0 || from >= items.len() {
        Seq::empty()
    } else if is_pending(items[from].status) {
        seq![items[from].id] + pending_from(items, from + 1)
    } else {
        pending_from(items, from + 1)
    }
}

impl Service {
    /// The items as they are shown: by when they were first seen, the latest
    /// first.
    pub fn listed_items(&self) -> (r: Vec<FeedItem>)
        ensures
            are_listed(self.inner.state.items@, items_view(r@)),
    {
        let items = &self.inner.state.items;
        let mut times: Vec<String> = Vec::new();
        let mut i: usize = 0;
        while i < items.len()
            invariant
                i <= items@.len(),
                times@.len() == i,
                forall|j: int| 0 <= j < i ==> #[trigger] times@[j] == items@[j].first_seen_at,
            decreases items@.len() - i,
        {
            times.push(items[i].first_seen_at.clone());
            i += 1;
        }
        assert(times@ =~= first_seen(items@));
        let order = descending_order(&times);
        assert(is_rearrangement(order@, items@.len() as int));
        reorder(items, &order)
    }

    /// The identifiers of the items that are to be downloaded.
    pub fn pending_ids(&self) -> (r: Vec<String>)
        ensures
            texts(r@) == pending_from(self.inner@.state.items, 0),
    {
        let items = &self.inner.state.items;
        let ghost view = items_view(items@);
        let mut ids: Vec<String> = Vec::new();
        let mut i: usize = 0;
        assert(texts(ids@) + pending_from(view, 0) =~= pending_from(view, 0));
        while i < items.len()
            invariant
                i <= items@.len(),
                view == items_view(items@),
                texts(ids@) + pending_from(view, i as int) == pending_from(view, 0),
            decreases items@.len() - i,
        {
            let status = items[i].status;
            if status == ItemStatus::New || status == ItemStatus::Queued || status
                == ItemStatus::Failed {
                let ghost before = texts(ids@);
                ids.push(items[i].id.clone());
                assert(texts(ids@) =~= before.push(view[i as int].id));
                assert(before + (seq![view[i as int].id] + pending_from(view, i + 1)) =~= texts(
                    ids@,
                ) + pending_from(view, i + 1));
            }
            i += 1;
        }
        assert(texts(ids@) + pending_from(view, i as int) =~= texts(ids@));
        ids
    }
}

/// How far an item is: not known, done, or so many bytes out of a total.
#[derive(Clone, Copy, Debug, PartialEq, Eq, Structural)]
pub enum Progress {
    Unknown,
    Done,
    Part { downloaded: u64, total: u64 },
}

/// An item as it is shown: with what is left of it, what is there, and how far
/// it is.
#[derive(Debug)]
pub struct ItemProgress {
    pub item: FeedItem,
    pub remaining: Option<u64>,
    pub downloaded: Option<u64>,
    pub progress: Progress,
}

/// The bytes that are there out of a total, given what is left, unless the
/// total is nothing.
pub open spec fn bytes_there(total: u64, remaining: u64) -> Option<u64> {
    if total == 0 {
        None
    } else if remaining >= total {
        Some(0)
    } else {
        Some((total - remaining) as u64)
    }
}

/// Works out the bytes that are there out of a total.
pub fn download_progress(total: u64, remaining: u64) -> (r: Option<u64>)
    ensures
        r == bytes_there(total, remaining),
{
    if total == 0 {
        None
    } else if remaining >= total {
        Some(0)
    } else {
        Some(total - remaining)
    }
}

/// The size of an item: as it is known, else as its torrent file says.
pub open spec fn size_of_item(item: ItemView, torrent: Option<Seq<u8>>) -> Option<u64> {
    match (item.total_bytes, torrent) {
        (Some(total), _) => Some(total),
        (None, Some(bytes)) => match metadata_of(bytes) {
            Ok(metadata) => Some(metadata.total_bytes as u64),
            Err(_) => None,
        },
        (None, None) => None,
    }
}

/// What is left of an item, as its task says, but no more than all of it.
pub open spec fn left_of_item(
    item: ItemView,
    total: Option<u64>,
    tasks: Seq<TaskView>,
) -> Option<u64> {
    match item.info_hash {
        Some(info_hash) => {
            let at = find_task(tasks, info_hash, 0);
            if at < tasks.len() {
                match (tasks[at].left, total) {
                    (Some(left), Some(total)) => Some(
                        if left < total {
                            left
                        } else {
                            total
                        },
                    ),
                    (left, _) => left,
                }
            } else {
                None
            }
        },
        None => None,
    }
}

/// What is there of an item, given what is left of it.
pub open spec fn there_of_item(total: Option<u64>, remaining: Option<u64>) -> Option<u64> {
    match (total, remaining) {
        (Some(total), Some(remaining)) => bytes_there(total, remaining),
        _ => None,
    }
}

/// Whether an item is shown as it should be.
pub open spec fn shows_progress(
    shown: ItemProgress,
    item: ItemView,
    tasks: Seq<TaskView>,
    torrent: Option<Seq<u8>>,
) -> bool {
    let total = size_of_item(item, torrent);
    let remaining = left_of_item(item, total, tasks);
    let there = there_of_item(total, remaining);
    let done = item.status == ItemStatus::Completed;
    &&& shown.item@ == (ItemView { total_bytes: total, ..item })
    &&& shown.remaining == remaining
    &&& shown.downloaded == if there is Some {
        there
    } else if done {
        total
    } else {
        None
    }
    &&& shown.progress == if done {
        Progress::Done
    } else if there is Some {
        Progress::Part { downloaded: there->Some_0, total: total->Some_0 }
    } else {
        Progress::Unknown
    }
}

/// Works out how an item is shown, given the tasks and its torrent file, where
/// that could be read.
pub fn item_with_progress(
    item: FeedItem,
    tasks: &Vec<BitCometTask>,
    torrent: &Option<Vec<u8>>,
) -> (r: ItemProgress)
    ensures
        shows_progress(
            r,
            item@,
            tasks_view(tasks@),
            match torrent {
                Some(bytes) => Some(bytes@),
                None => None,
            },
        ),
{
    let mut item = item;
    if item.total_bytes.is_none() {
        if let Some(bytes) = torrent {
            if let Ok(metadata) = parse_metadata(bytes) {
                item.total_bytes = Some(metadata.total_bytes);
            }
        }
    }
    let total = item.total_bytes;
    let remaining = match &item.info_hash {
        Some(info_hash) => match first_task(tasks, info_hash) {
            Some(at) => match (tasks[at].left, total) {
                (Some(left), Some(total)) => Some(
                    if left < total {
                        left
                    } else {
                        total
                    },
                ),
                (left, _) => left,
            },
            None => None,
        },
        None => None,
    };
    let there = match (total, remaining) {
        (Some(total), Some(remaining)) => download_progress(total, remaining),
        _ => None,
    };
    let done = item.status == ItemStatus::Completed;
    let downloaded = match there {
        Some(bytes) => Some(bytes),
        None => if done {
            total
        } else {
            None
        },
    };
    let progress = if done {
        Progress::Done
    } else {
        match (there, total) {
            (Some(downloaded), Some(total)) => Progress::Part { downloaded, total },
            _ => Progress::Unknown,
        }
    };
    ItemProgress { item, remaining, downloaded, progress }
}

/// What is there of an item and what is left of it are all of it.
pub proof fn law_parts_make_the_whole(
    item: ItemView,
    tasks: Seq<TaskView>,
    torrent: Option<Seq<u8>>,
)
    ensures
        ({
            let total = size_of_item(item, torrent);
            let remaining = left_of_item(item, total, tasks);
            there_of_item(total, remaining) matches Some(there) ==> there + remaining->Some_0
                == total->Some_0
        }),
{
}

} // verus!
