//! What submitting an item to BitComet comes to.

use vstd::prelude::*;
use vstd::string::*;

use crate::bitcomet::executable::names_bitcomet;
use crate::laws::words::{lemma_lower_is, lemma_lower_word, same_but_case};
use crate::models::{ItemStatus, ItemView};
use crate::service::state::{lemma_find_item, InnerView};
use crate::service::submit::{
    advanced, start_of, StartView, SubmissionView, SubmitEvent, SubmitPhaseView,
};
use crate::text::texts;
use crate::torrent::{metadata_of, MetadataView, TorrentError};
use crate::util::PathFacts;

verus! {

/// Whether a path leads to a file that is named like the executable of
/// BitComet, in any case of its letters.
pub open spec fn leads_to_bitcomet(facts: PathFacts) -> bool {
    facts.is_file && (facts.file_name matches Some(name) && (same_but_case(
        name@,
        "bitcomet.exe"@,
    ) || same_but_case(name@, "bitcomet_x64.exe"@)))
}

/// The executable is told by its name, in any case of its letters, and only
/// where it is a file.
pub proof fn law_executable_is_told_by_its_name(facts: PathFacts)
    ensures
        names_bitcomet(facts) <==> leads_to_bitcomet(facts),
{
    reveal_strlit("bitcomet.exe");
    reveal_strlit("bitcomet_x64.exe");
    lemma_lower_word("bitcomet.exe"@);
    lemma_lower_word("bitcomet_x64.exe"@);
    if let Some(name) = facts.file_name {
        lemma_lower_is(name@, "bitcomet.exe"@);
        lemma_lower_is(name@, "bitcomet_x64.exe"@);
    }
}

/// Whether an item is the first with an identifier.
pub open spec fn is_first_item(items: Seq<ItemView>, id: Seq<char>, at: int) -> bool {
    &&& 0 <= at < items.len()
    &&& items[at].id == id
    &&& forall|j: int| 0 <= j < at ==> (#[trigger] items[j]).id != id
}

/// Whether a submission has ended with words that are kept with its item, at
/// a time, and has changed nothing else of it.
pub open spec fn fails_with(
    before: SubmissionView,
    after: SubmissionView,
    words: Seq<char>,
    now: Seq<char>,
) -> bool {
    &&& after.phase == SubmitPhaseView::Failed(words)
    &&& after.config == before.config
    &&& after.item == (ItemView {
        status: ItemStatus::Failed,
        last_error: Some(words),
        updated_at: now,
        ..before.item
    })
}

/// An item that is queued, new, failed, deleted or left in the middle of a
/// download can be submitted; one that is submitted, paused or completed needs
/// no submission; one that is ignored is refused, as is one that there is not.
pub proof fn law_submitting_goes_by_the_status(inner: InnerView, id: Seq<char>, at: int)
    ensures
        is_first_item(inner.state.items, id, at) ==> ({
            let item = inner.state.items[at];
            start_of(inner, id) == match item.status {
                ItemStatus::Ignored => StartView::Refused("Ignored item cannot be submitted"@),
                ItemStatus::Completed | ItemStatus::Submitted | ItemStatus::Paused => {
                    StartView::Settled(item)
                },
                ItemStatus::New
                | ItemStatus::Queued
                | ItemStatus::Failed
                | ItemStatus::Deleted
                | ItemStatus::DownloadingTorrent => StartView::Begun(
                    SubmissionView {
                        item,
                        config: inner.state.config,
                        phase: SubmitPhaseView::Check,
                    },
                ),
            }
        }),
        (forall|j: int| 0 <= j < inner.state.items.len() ==> (#[trigger] inner.state.items[j]).id
            != id) ==> start_of(inner, id) == StartView::Refused("Item not found"@),
{
    lemma_find_item(inner.state.items, id, 0);
}

/// A torrent is not added where any other item that has neither failed nor is
/// new has it: the submission ends as a duplicate, and its item counts as
/// submitted.
pub proof fn law_torrent_of_another_item_is_skipped(
    submission: SubmissionView,
    hashes: Vec<String>,
    items: Seq<ItemView>,
    now: Seq<char>,
    other: int,
)
    requires
        submission.phase is Compare,
        0 <= other < items.len(),
        items[other].id != submission.item.id,
        items[other].info_hash == Some(submission.phase->Compare_info_hash),
        items[other].status == ItemStatus::Queued || items[other].status
            == ItemStatus::DownloadingTorrent || items[other].status == ItemStatus::Submitted
            || items[other].status == ItemStatus::Paused || items[other].status
            == ItemStatus::Completed || items[other].status == ItemStatus::Ignored
            || items[other].status == ItemStatus::Deleted,
    ensures
        is_skipped(submission, advanced(submission, SubmitEvent::Listed(hashes), items, now), now),
{
}

/// Whether a submission has ended as a duplicate.
pub open spec fn is_skipped(
    before: SubmissionView,
    after: SubmissionView,
    now: Seq<char>,
) -> bool {
    &&& after.phase is Duplicate
    &&& after.config == before.config
    &&& after.item == (ItemView {
        status: ItemStatus::Submitted,
        last_error: Some("Duplicate torrent infohash already exists; skipped new submission"@),
        updated_at: now,
        ..before.item
    })
}

/// A torrent is not added where BitComet lists its info hash already.
pub proof fn law_torrent_that_bitcomet_has_is_skipped(
    submission: SubmissionView,
    hashes: Vec<String>,
    items: Seq<ItemView>,
    now: Seq<char>,
    listed: int,
)
    requires
        submission.phase is Compare,
        0 <= listed < hashes@.len(),
        hashes@[listed]@ == submission.phase->Compare_info_hash,
    ensures
        is_skipped(submission, advanced(submission, SubmitEvent::Listed(hashes), items, now), now),
{
    assert(texts(hashes@)[listed] == submission.phase->Compare_info_hash);
}

/// A torrent that neither BitComet nor another item has is added: items that
/// failed or are new, and the item itself, do not stand in the way.
pub proof fn law_torrent_that_nobody_has_is_added(
    submission: SubmissionView,
    hashes: Vec<String>,
    items: Seq<ItemView>,
    now: Seq<char>,
)
    requires
        submission.phase is Compare,
        forall|i: int|
            0 <= i < hashes@.len() ==> (#[trigger] hashes@[i])@
                != submission.phase->Compare_info_hash,
        forall|i: int|
            0 <= i < items.len() ==> (#[trigger] items[i]).id == submission.item.id
                || items[i].info_hash != Some(submission.phase->Compare_info_hash)
                || items[i].status == ItemStatus::Failed || items[i].status == ItemStatus::New,
    ensures
        advanced(submission, SubmitEvent::Listed(hashes), items, now) == (SubmissionView {
            phase: SubmitPhaseView::Add {
                info_hash: submission.phase->Compare_info_hash,
                torrent_path: submission.phase->Compare_torrent_path,
            },
            ..submission
        }),
{
    assert(!texts(hashes@).contains(submission.phase->Compare_info_hash)) by {
        if texts(hashes@).contains(submission.phase->Compare_info_hash) {
            let i = choose|i: int|
                0 <= i < hashes@.len() && texts(hashes@)[i]
                    == submission.phase->Compare_info_hash;
            assert(hashes@[i]@ == submission.phase->Compare_info_hash);
        }
    }
}

/// A submission goes on only for an item with a torrent URL, into a folder
/// that is there, with an executable that is one; else it fails, for the first
/// of these that is missing.
pub proof fn law_submission_needs_url_folder_and_executable(
    submission: SubmissionView,
    folder: PathFacts,
    executable: PathFacts,
    items: Seq<ItemView>,
    now: Seq<char>,
)
    requires
        submission.phase is Check,
    ensures
        ({
            let after = advanced(
                submission,
                SubmitEvent::Checked(folder, executable),
                items,
                now,
            );
            let url = submission.item.enclosure_url.len() > 0;
            &&& !url ==> fails_with(
                submission,
                after,
                "RSS item does not include a torrent enclosure URL"@,
                now,
            )
            &&& url && !folder.is_dir ==> fails_with(
                submission,
                after,
                "Download directory does not exist"@,
                now,
            )
            &&& url && folder.is_dir && !leads_to_bitcomet(executable) ==> fails_with(
                submission,
                after,
                "BitComet executable is not configured"@,
                now,
            )
            &&& url && folder.is_dir && leads_to_bitcomet(executable) ==> after == (
            SubmissionView {
                item: ItemView {
                    status: ItemStatus::DownloadingTorrent,
                    updated_at: now,
                    ..submission.item
                },
                phase: SubmitPhaseView::Store,
                ..submission
            })
        }),
{
    law_executable_is_told_by_its_name(executable);
}

/// An item takes from its torrent file the info hash, the size and the name,
/// or keeps its title for a name where the file has none; and it is that info
/// hash that is compared then.
pub proof fn law_item_takes_from_its_torrent(
    submission: SubmissionView,
    torrent_path: String,
    bytes: Vec<u8>,
    metadata: MetadataView,
    items: Seq<ItemView>,
    now: Seq<char>,
)
    requires
        submission.phase is Download,
        metadata_of(bytes@) == Ok::<_, TorrentError>(metadata),
    ensures
        advanced(submission, SubmitEvent::Downloaded(Ok((torrent_path, bytes))), items, now) == (
        SubmissionView {
            item: ItemView {
                info_hash: Some(metadata.info_hash),
                total_bytes: Some(metadata.total_bytes as u64),
                save_name: Some(
                    if metadata.name.len() > 0 {
                        metadata.name
                    } else {
                        submission.item.title
                    },
                ),
                ..submission.item
            },
            phase: SubmitPhaseView::Compare {
                info_hash: metadata.info_hash,
                torrent_path: torrent_path@,
            },
            ..submission
        }),
{
}

/// Whatever goes wrong ends the submission with its words.
pub proof fn law_what_goes_wrong_ends_the_submission(
    submission: SubmissionView,
    words: String,
    bytes: Vec<u8>,
    torrent_path: String,
    items: Seq<ItemView>,
    now: Seq<char>,
)
    ensures
        submission.phase is Store ==> fails_with(
            submission,
            advanced(submission, SubmitEvent::Stored(Err(words)), items, now),
            words@,
            now,
        ),
        submission.phase is Download ==> fails_with(
            submission,
            advanced(submission, SubmitEvent::Downloaded(Err(words)), items, now),
            words@,
            now,
        ),
        submission.phase is Download ==> (metadata_of(bytes@) matches Err(error) ==> fails_with(
            submission,
            advanced(
                submission,
                SubmitEvent::Downloaded(Ok((torrent_path, bytes))),
                items,
                now,
            ),
            error.text(),
            now,
        )),
        submission.phase is Add ==> fails_with(
            submission,
            advanced(submission, SubmitEvent::Added(Err(words)), items, now),
            words@,
            now,
        ),
        submission.phase is Wait ==> fails_with(
            submission,
            advanced(submission, SubmitEvent::Waited(false), items, now),
            "BitComet did not confirm the submitted torrent within 10 seconds"@,
            now,
        ),
{
}

/// A submission in which nothing goes wrong, of a torrent that nobody has,
/// saves the item, downloads, compares, adds and waits, and ends with an item
/// that is submitted: with the folder that is configured, with the torrent
/// file, and with what that file says.
pub proof fn law_submission_of_a_new_torrent_succeeds(
    submission: SubmissionView,
    folder: PathFacts,
    executable: PathFacts,
    torrent_path: String,
    bytes: Vec<u8>,
    metadata: MetadataView,
    hashes: Vec<String>,
    items: Seq<ItemView>,
    times: Seq<Seq<char>>,
)
    requires
        submission.phase is Check,
        submission.item.enclosure_url.len() > 0,
        folder.is_dir,
        leads_to_bitcomet(executable),
        metadata_of(bytes@) == Ok::<_, TorrentError>(metadata),
        forall|i: int| 0 <= i < hashes@.len() ==> (#[trigger] hashes@[i])@ != metadata.info_hash,
        forall|i: int|
            0 <= i < items.len() ==> (#[trigger] items[i]).id == submission.item.id
                || items[i].info_hash != Some(metadata.info_hash) || items[i].status
                == ItemStatus::Failed || items[i].status == ItemStatus::New,
        times.len() == 6,
    ensures
        ({
            let first = advanced(
                submission,
                SubmitEvent::Checked(folder, executable),
                items,
                times[0],
            );
            let second = advanced(first, SubmitEvent::Stored(Ok(())), items, times[1]);
            let third = advanced(
                second,
                SubmitEvent::Downloaded(Ok((torrent_path, bytes))),
                items,
                times[2],
            );
            let fourth = advanced(third, SubmitEvent::Listed(hashes), items, times[3]);
            let fifth = advanced(fourth, SubmitEvent::Added(Ok(())), items, times[4]);
            let last = advanced(fifth, SubmitEvent::Waited(true), items, times[5]);
            &&& first.phase is Store
            &&& second.phase is Download
            &&& third.phase is Compare
            &&& fourth.phase == SubmitPhaseView::Add {
                info_hash: metadata.info_hash,
                torrent_path: torrent_path@,
            }
            &&& fifth.phase == SubmitPhaseView::Wait {
                info_hash: metadata.info_hash,
                torrent_path: torrent_path@,
            }
            &&& last.phase is Submitted
            &&& last.item == (ItemView {
                status: ItemStatus::Submitted,
                download_dir: submission.config.download_dir,
                torrent_path: Some(torrent_path@),
                info_hash: Some(metadata.info_hash),
                total_bytes: Some(metadata.total_bytes as u64),
                save_name: Some(
                    if metadata.name.len() > 0 {
                        metadata.name
                    } else {
                        submission.item.title
                    },
                ),
                submitted_at: Some(times[5]),
                updated_at: times[5],
                last_error: None,
                ..submission.item
            })
        }),
{
    law_submission_needs_url_folder_and_executable(
        submission,
        folder,
        executable,
        items,
        times[0],
    );
    let first = advanced(submission, SubmitEvent::Checked(folder, executable), items, times[0]);
    let second = advanced(first, SubmitEvent::Stored(Ok(())), items, times[1]);
    let third = advanced(
        second,
        SubmitEvent::Downloaded(Ok((torrent_path, bytes))),
        items,
        times[2],
    );
    law_item_takes_from_its_torrent(second, torrent_path, bytes, metadata, items, times[2]);
    law_torrent_that_nobody_has_is_added(third, hashes, items, times[3]);
}

} // verus!
