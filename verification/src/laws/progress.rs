//! How far an item is shown to be.

use vstd::prelude::*;

use crate::laws::following::{has_no_task, is_first_task, law_task_is_found_by_its_hash};
use crate::models::{ItemStatus, ItemView, TaskView};
use crate::service::items::{shows_progress, ItemProgress, Progress};
use crate::torrent::{metadata_of, MetadataView, TorrentError};

verus! {

/// An item of any status is shown with what its task says is left, but with no
/// more than all of it; what is there is the rest. Where it is not completed,
/// how far it is is what is there out of all of it.
pub proof fn law_progress_is_what_is_not_left(
    shown: ItemProgress,
    item: ItemView,
    info_hash: Seq<char>,
    tasks: Seq<TaskView>,
    at: int,
    left: u64,
    total: u64,
    torrent: Option<Seq<u8>>,
)
    requires
        shows_progress(shown, item, tasks, torrent),
        item.info_hash == Some(info_hash),
        is_first_task(tasks, info_hash, at),
        tasks[at].left == Some(left),
        item.total_bytes == Some(total),
    ensures
        left <= total ==> shown.remaining == Some(left),
        left > total ==> shown.remaining == Some(total),
        total > 0 && left <= total ==> shown.downloaded == Some((total - left) as u64),
        total > 0 && left > total ==> shown.downloaded == Some(0u64),
        total > 0 && item.status != ItemStatus::Completed ==> (shown.progress matches Progress::Part {
            downloaded,
            total: all,
        } && all == total && shown.downloaded == Some(downloaded)),
        total == 0 && item.status != ItemStatus::Completed ==> shown.progress
            == Progress::Unknown && shown.downloaded is None,
{
    law_task_is_found_by_its_hash(tasks, info_hash, at);
}

/// A completed item is shown as done, and with all of it there where nothing
/// is said to be left of it.
pub proof fn law_completed_item_is_shown_as_done(
    shown: ItemProgress,
    item: ItemView,
    tasks: Seq<TaskView>,
    torrent: Option<Seq<u8>>,
)
    requires
        shows_progress(shown, item, tasks, torrent),
    ensures
        item.status == ItemStatus::Completed <==> shown.progress == Progress::Done,
        item.status == ItemStatus::Completed && shown.remaining is None ==> shown.downloaded
            == shown.item@.total_bytes,
{
}

/// Nothing is shown to be left of an item without a task, or whose task does
/// not say; how far it is is not known then, unless it is completed.
pub proof fn law_progress_is_unknown_without_a_task(
    shown: ItemProgress,
    item: ItemView,
    tasks: Seq<TaskView>,
    at: int,
    torrent: Option<Seq<u8>>,
)
    requires
        shows_progress(shown, item, tasks, torrent),
        item.info_hash is None || has_no_task(tasks, item.info_hash->Some_0) || (is_first_task(
            tasks,
            item.info_hash->Some_0,
            at,
        ) && tasks[at].left is None),
    ensures
        shown.remaining is None,
        item.status != ItemStatus::Completed ==> shown.progress == Progress::Unknown
            && shown.downloaded is None,
{
    if let Some(info_hash) = item.info_hash {
        law_task_is_found_by_its_hash(tasks, info_hash, at);
    }
}

/// Where the size of an item is not known from anywhere, what is left is shown
/// as its task says.
pub proof fn law_what_is_left_is_shown_without_a_size(
    shown: ItemProgress,
    item: ItemView,
    info_hash: Seq<char>,
    tasks: Seq<TaskView>,
    at: int,
)
    requires
        shows_progress(shown, item, tasks, None),
        item.info_hash == Some(info_hash),
        is_first_task(tasks, info_hash, at),
        item.total_bytes is None,
    ensures
        shown.remaining == tasks[at].left,
        shown.downloaded is None,
        item.status != ItemStatus::Completed ==> shown.progress == Progress::Unknown,
{
    law_task_is_found_by_its_hash(tasks, info_hash, at);
}

/// An item is shown as it is but for its size: a size that is not known is
/// that of its torrent file, and one that is known stays.
pub proof fn law_size_is_shown_from_the_torrent(
    shown: ItemProgress,
    item: ItemView,
    tasks: Seq<TaskView>,
    torrent: Option<Seq<u8>>,
    metadata: MetadataView,
)
    requires
        shows_progress(shown, item, tasks, torrent),
    ensures
        shown.item@ == (ItemView { total_bytes: shown.item@.total_bytes, ..item }),
        item.total_bytes is Some ==> shown.item@ == item,
        item.total_bytes is None && torrent is None ==> shown.item@ == item,
        item.total_bytes is None && torrent is Some && metadata_of(torrent->Some_0) == Ok::<
            _,
            TorrentError,
        >(metadata) ==> shown.item@.total_bytes == Some(metadata.total_bytes as u64),
        item.total_bytes is None && torrent is Some && metadata_of(torrent->Some_0) is Err
            ==> shown.item@ == item,
{
}

/// An item of which only its torrent file knows the size is shown as if it
/// knew the size itself.
pub proof fn law_size_of_the_torrent_counts(
    shown: ItemProgress,
    other: ItemProgress,
    item: ItemView,
    tasks: Seq<TaskView>,
    bytes: Seq<u8>,
    metadata: MetadataView,
)
    requires
        item.total_bytes is None,
        metadata_of(bytes) == Ok::<_, TorrentError>(metadata),
        shows_progress(shown, item, tasks, Some(bytes)),
        shows_progress(
            other,
            ItemView { total_bytes: Some(metadata.total_bytes as u64), ..item },
            tasks,
            None,
        ),
    ensures
        shown.remaining == other.remaining,
        shown.downloaded == other.downloaded,
        shown.progress == other.progress,
{
}

} // verus!
