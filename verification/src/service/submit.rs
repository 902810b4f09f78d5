//! Submitting an item to BitComet: a submission says what is to be done next
//! and is told what came of it, until it is finished.

use vstd::prelude::*;
use vstd::string::*;

use crate::bitcomet::executable::{is_executable, names_bitcomet};
use crate::bitcomet::tasks::has_text;
use crate::clock::Moment;
use crate::models::{items_view, AppConfig, ConfigView, FeedItem, ItemStatus, ItemView};
use crate::outside::{rfc3339_text_of, same_text};
use crate::service::items::{has_item, item_with};
use crate::service::state::{item_place, InnerView, Service};
use crate::text::{joined, texts};
use crate::torrent::{metadata_of, parse_metadata, MetadataView};
use crate::util::{filename_of, sanitize_filename, PathFacts};

verus! {

/// What a submission is to have done next, or how it ended.
#[derive(Debug)]
pub enum SubmitPhase {
    /// To have the folder and the executable looked at.
    Check,
    /// To have the item saved.
    Store,
    /// To have the torrent file downloaded and read back.
    Download,
    /// To have the tasks that there are listed.
    Compare { info_hash: String, torrent_path: String },
    /// To have the torrent file added.
    Add { info_hash: String, torrent_path: String },
    /// To have the task waited for.
    Wait { info_hash: String, torrent_path: String },
    /// The item is submitted.
    Submitted,
    /// The item was submitted before.
    Duplicate,
    /// The item could not be submitted.
    Failed(String),
}

/// The contents of a `SubmitPhase`.
pub enum SubmitPhaseView {
    Check,
    Store,
    Download,
    Compare { info_hash: Seq<char>, torrent_path: Seq<char> },
    Add { info_hash: Seq<char>, torrent_path: Seq<char> },
    Wait { info_hash: Seq<char>, torrent_path: Seq<char> },
    Submitted,
    Duplicate,
    Failed(Seq<char>),
}

impl View for SubmitPhase {
    type V = SubmitPhaseView;

    open spec fn view(&self) -> SubmitPhaseView {
        match self {
            SubmitPhase::Check => SubmitPhaseView::Check,
            SubmitPhase::Store => SubmitPhaseView::Store,
            SubmitPhase::Download => SubmitPhaseView::Download,
            SubmitPhase::Compare { info_hash, torrent_path } => SubmitPhaseView::Compare {
                info_hash: info_hash@,
                torrent_path: torrent_path@,
            },
            SubmitPhase::Add { info_hash, torrent_path } => SubmitPhaseView::Add {
                info_hash: info_hash@,
                torrent_path: torrent_path@,
            },
            SubmitPhase::Wait { info_hash, torrent_path } => SubmitPhaseView::Wait {
                info_hash: info_hash@,
                torrent_path: torrent_path@,
            },
            SubmitPhase::Submitted => SubmitPhaseView::Submitted,
            SubmitPhase::Duplicate => SubmitPhaseView::Duplicate,
            SubmitPhase::Failed(message) => SubmitPhaseView::Failed(message@),
        }
    }
}

/// The submission of an item.
#[derive(Debug)]
pub struct Submission {
    pub item: FeedItem,
    pub config: AppConfig,
    pub phase: SubmitPhase,
}

/// The contents of a `Submission`.
pub struct SubmissionView {
    pub item: ItemView,
    pub config: ConfigView,
    pub phase: SubmitPhaseView,
}

impl View for Submission {
    type V = SubmissionView;

    open spec fn view(&self) -> SubmissionView {
        SubmissionView { item: self.item@, config: self.config@, phase: self.phase@ }
    }
}

/// How a submission begins: it is under way, or the item needs none.
#[derive(Debug)]
pub enum SubmitStart {
    Begun(Submission),
    Settled(FeedItem),
}

/// What came of what a submission was to have done.
#[derive(Debug)]
pub enum SubmitEvent {
    /// What the file system says of the folder and of the executable.
    Checked(PathFacts, PathFacts),
    /// How saving went.
    Stored(Result<(), String>),
    /// The path of the torrent file and what is in it, or what went wrong.
    Downloaded(Result<(String, Vec<u8>), String>),
    /// The info hashes of the tasks that there are.
    Listed(Vec<String>),
    /// How adding went.
    Added(Result<(), String>),
    /// Whether the task came up in time.
    Waited(bool),
}

/// Whether an item needs no submission.
pub open spec fn is_settled(status: ItemStatus) -> bool {
    status == ItemStatus::Completed || status == ItemStatus::Submitted || status
        == ItemStatus::Paused
}

impl SubmissionView {
    /// The submission, failed with a message at a time.
    pub open spec fn failed(self, message: Seq<char>, now: Seq<char>) -> SubmissionView {
        SubmissionView {
            item: ItemView {
                status: ItemStatus::Failed,
                last_error: Some(message),
                updated_at: now,
                ..self.item
            },
            phase: SubmitPhaseView::Failed(message),
            ..self
        }
    }

    /// The submission in another phase.
    pub open spec fn in_phase(self, phase: SubmitPhaseView) -> SubmissionView {
        SubmissionView { phase, ..self }
    }

    /// Whether the submission is finished.
    pub open spec fn is_over(self) -> bool {
        self.phase is Submitted || self.phase is Duplicate || self.phase is Failed
    }
}

/// A submission once the folder and the executable were looked at.
pub open spec fn checked(
    submission: SubmissionView,
    folder: PathFacts,
    executable: PathFacts,
    now: Seq<char>,
) -> SubmissionView {
    if submission.item.enclosure_url.len() == 0 {
        submission.failed("RSS item does not include a torrent enclosure URL"@, now)
    } else if !folder.is_dir {
        submission.failed("Download directory does not exist"@, now)
    } else if !names_bitcomet(executable) {
        submission.failed("BitComet executable is not configured"@, now)
    } else {
        SubmissionView {
            item: ItemView {
                status: ItemStatus::DownloadingTorrent,
                updated_at: now,
                ..submission.item
            },
            phase: SubmitPhaseView::Store,
            ..submission
        }
    }
}

/// An item with what its torrent file says.
pub open spec fn described(item: ItemView, metadata: MetadataView) -> ItemView {
    ItemView {
        info_hash: Some(metadata.info_hash),
        total_bytes: Some(metadata.total_bytes as u64),
        save_name: Some(
            if metadata.name.len() == 0 {
                item.title
            } else {
                metadata.name
            },
        ),
        ..item
    }
}

/// Whether another of the items has an info hash and was submitted.
pub open spec fn is_known(items: Seq<ItemView>, id: Seq<char>, info_hash: Seq<char>) -> bool {
    exists|i: int|
        0 <= i < items.len() && is_other_with(#[trigger] items[i], id, info_hash)
}

/// Whether an item is another one with an info hash that was submitted.
pub open spec fn is_other_with(item: ItemView, id: Seq<char>, info_hash: Seq<char>) -> bool {
    &&& item.id != id
    &&& item.info_hash == Some(info_hash)
    &&& item.status != ItemStatus::Failed
    &&& item.status != ItemStatus::New
}

/// A submission behind what came of what it was to have done, given all items
/// and a time. What it was not to have done does not change it.
pub open spec fn advanced(
    submission: SubmissionView,
    event: SubmitEvent,
    items: Seq<ItemView>,
    now: Seq<char>,
) -> SubmissionView {
    match (submission.phase, event) {
        (SubmitPhaseView::Check, SubmitEvent::Checked(folder, executable)) => checked(
            submission,
            folder,
            executable,
            now,
        ),
        (SubmitPhaseView::Store, SubmitEvent::Stored(stored)) => match stored {
            Ok(()) => submission.in_phase(SubmitPhaseView::Download),
            Err(message) => submission.failed(message@, now),
        },
        (SubmitPhaseView::Download, SubmitEvent::Downloaded(downloaded)) => match downloaded {
            Err(message) => submission.failed(message@, now),
            Ok((torrent_path, bytes)) => match metadata_of(bytes@) {
                Err(error) => submission.failed(error.text(), now),
                Ok(metadata) => SubmissionView {
                    item: described(submission.item, metadata),
                    phase: SubmitPhaseView::Compare {
                        info_hash: metadata.info_hash,
                        torrent_path: torrent_path@,
                    },
                    ..submission
                },
            },
        },
        (
            SubmitPhaseView::Compare { info_hash, torrent_path },
            SubmitEvent::Listed(hashes),
        ) => if is_known(items, submission.item.id, info_hash) || texts(hashes@).contains(
            info_hash,
        ) {
            SubmissionView {
                item: ItemView {
                    status: ItemStatus::Submitted,
                    last_error: Some(
                        "Duplicate torrent infohash already exists; skipped new submission"@,
                    ),
                    updated_at: now,
                    ..submission.item
                },
                phase: SubmitPhaseView::Duplicate,
                ..submission
            }
        } else {
            submission.in_phase(SubmitPhaseView::Add { info_hash, torrent_path })
        },
        (
            SubmitPhaseView::Add { info_hash, torrent_path },
            SubmitEvent::Added(added),
        ) => match added {
            Ok(()) => submission.in_phase(SubmitPhaseView::Wait { info_hash, torrent_path }),
            Err(message) => submission.failed(message@, now),
        },
        (SubmitPhaseView::Wait { torrent_path, .. }, SubmitEvent::Waited(came_up)) => if came_up {
            SubmissionView {
                item: ItemView {
                    status: ItemStatus::Submitted,
                    download_dir: submission.config.download_dir,
                    torrent_path: Some(torrent_path),
                    submitted_at: Some(now),
                    updated_at: now,
                    last_error: None,
                    ..submission.item
                },
                phase: SubmitPhaseView::Submitted,
                ..submission
            }
        } else {
            submission.failed(
                "BitComet did not confirm the submitted torrent within 10 seconds"@,
                now,
            )
        },
        _ => submission,
    }
}

/// The seconds for which a task is waited for.
pub const WAIT_SECONDS: u64 = 10;

fn known_elsewhere(items: &Vec<FeedItem>, id: &str, info_hash: &str) -> (r: bool)
    ensures
        r == is_known(items_view(items@), id@, info_hash@),
{
    let ghost view = items_view(items@);
    let mut i: usize = 0;
    while i < items.len()
        invariant
            i <= items@.len(),
            view == items_view(items@),
            forall|j: int| 0 <= j < i ==> !is_other_with(#[trigger] view[j], id@, info_hash@),
        decreases items@.len() - i,
    {
        let item = &items[i];
        let same_hash = match &item.info_hash {
            Some(hash) => same_text(hash, info_hash),
            None => false,
        };
        if same_hash && !same_text(&item.id, id) && item.status != ItemStatus::Failed && item.status
            != ItemStatus::New {
            assert(is_other_with(view[i as int], id@, info_hash@));
            return true;
        }
        i += 1;
    }
    false
}

impl Submission {
    fn fail(&mut self, message: String, now: &Moment)
        ensures
            final(self)@ == old(self)@.failed(message@, rfc3339_text_of(now.at())),
    {
        self.item.status = ItemStatus::Failed;
        self.item.last_error = Some(message.clone());
        self.item.updated_at = now.text();
        self.phase = SubmitPhase::Failed(message);
    }

    fn check(&mut self, folder: &PathFacts, executable: &PathFacts, now: &Moment)
        ensures
            final(self)@ == checked(
                old(self)@,
                *folder,
                *executable,
                rfc3339_text_of(now.at()),
            ),
    {
        if self.item.enclosure_url.as_str().is_empty() {
            self.fail("RSS item does not include a torrent enclosure URL".to_string(), now);
        } else if !folder.is_dir {
            self.fail("Download directory does not exist".to_string(), now);
        } else if !is_executable(executable) {
            self.fail("BitComet executable is not configured".to_string(), now);
        } else {
            self.item.status = ItemStatus::DownloadingTorrent;
            self.item.updated_at = now.text();
            self.phase = SubmitPhase::Store;
        }
    }

    fn describe(&mut self, torrent_path: String, bytes: &Vec<u8>, now: &Moment)
        ensures
            final(self)@ == match metadata_of(bytes@) {
                Err(error) => old(self)@.failed(error.text(), rfc3339_text_of(now.at())),
                Ok(metadata) => SubmissionView {
                    item: described(old(self)@.item, metadata),
                    phase: SubmitPhaseView::Compare {
                        info_hash: metadata.info_hash,
                        torrent_path: torrent_path@,
                    },
                    ..old(self)@
                },
            },
    {
        match parse_metadata(bytes) {
            Err(message) => {
                self.fail(message, now);
            },
            Ok(metadata) => {
                self.item.info_hash = Some(metadata.info_hash.clone());
                self.item.total_bytes = Some(metadata.total_bytes);
                self.item.save_name = Some(
                    if metadata.name.as_str().is_empty() {
                        self.item.title.clone()
                    } else {
                        metadata.name
                    },
                );
                self.phase = SubmitPhase::Compare { info_hash: metadata.info_hash, torrent_path };
            },
        }
    }

    /// Tells the submission what came of what it was to have done.
    pub fn advance(&mut self, event: SubmitEvent, items: &Vec<FeedItem>, now: &Moment)
        ensures
            final(self)@ == advanced(
                old(self)@,
                event,
                items_view(items@),
                rfc3339_text_of(now.at()),
            ),
    {
        let mut phase = SubmitPhase::Check;
        core::mem::swap(&mut phase, &mut self.phase);
        match (phase, event) {
            (SubmitPhase::Check, SubmitEvent::Checked(folder, executable)) => {
                self.check(&folder, &executable, now);
            },
            (SubmitPhase::Store, SubmitEvent::Stored(stored)) => match stored {
                Ok(()) => {
                    self.phase = SubmitPhase::Download;
                },
                Err(message) => {
                    self.fail(message, now);
                },
            },
            (SubmitPhase::Download, SubmitEvent::Downloaded(downloaded)) => match downloaded {
                Ok((torrent_path, bytes)) => {
                    self.describe(torrent_path, &bytes, now);
                },
                Err(message) => {
                    self.fail(message, now);
                },
            },
            (
                SubmitPhase::Compare { info_hash, torrent_path },
                SubmitEvent::Listed(hashes),
            ) => {
                if known_elsewhere(items, &self.item.id, &info_hash) || has_text(
                    &hashes,
                    &info_hash,
                ) {
                    self.item.status = ItemStatus::Submitted;
                    self.item.last_error = Some(
                        "Duplicate torrent infohash already exists; skipped new submission".to_string(),
                    );
                    self.item.updated_at = now.text();
                    self.phase = SubmitPhase::Duplicate;
                } else {
                    self.phase = SubmitPhase::Add { info_hash, torrent_path };
                }
            },
            (SubmitPhase::Add { info_hash, torrent_path }, SubmitEvent::Added(added)) => {
                match added {
                    Ok(()) => {
                        self.phase = SubmitPhase::Wait { info_hash, torrent_path };
                    },
                    Err(message) => {
                        self.fail(message, now);
                    },
                }
            },
            (SubmitPhase::Wait { torrent_path, .. }, SubmitEvent::Waited(came_up)) => {
                if came_up {
                    self.item.status = ItemStatus::Submitted;
                    self.item.download_dir = self.config.download_dir.clone();
                    self.item.torrent_path = Some(torrent_path);
                    self.item.submitted_at = Some(now.text());
                    self.item.updated_at = now.text();
                    self.item.last_error = None;
                    self.phase = SubmitPhase::Submitted;
                } else {
                    self.fail(
                        "BitComet did not confirm the submitted torrent within 10 seconds".to_string(),
                        now,
                    );
                }
            },
            (phase, _) => {
                self.phase = phase;
            },
        }
    }

    /// What is told of a submission that is finished: whether it is an error,
    /// and the words.
    pub fn report(&self) -> (r: Option<(bool, String)>)
        ensures
            match self@.phase {
                SubmitPhaseView::Submitted => r matches Some((error, text)) && !error && text@
                    == "Submitted torrent to BitComet: "@ + self@.item.title,
                SubmitPhaseView::Duplicate => r matches Some((error, text)) && !error && text@
                    == "Skipped duplicate torrent "@ + self@.item.title,
                SubmitPhaseView::Failed(message) => r matches Some((error, text)) && error && text@
                    == "Submit failed for "@ + self@.item.title + ": "@ + message,
                _ => r is None,
            },
    {
        match &self.phase {
            SubmitPhase::Submitted => Some(
                (false, joined("Submitted torrent to BitComet: ", &self.item.title)),
            ),
            SubmitPhase::Duplicate => Some(
                (false, joined("Skipped duplicate torrent ", &self.item.title)),
            ),
            SubmitPhase::Failed(message) => {
                let mut text = joined("Submit failed for ", &self.item.title);
                text.append(": ");
                text.append(message);
                Some((true, text))
            },
            _ => None,
        }
    }
}

/// The name of the torrent file of an item.
pub fn torrent_file_name(item: &FeedItem) -> (r: String)
    ensures
        r@ == item@.id + "-"@ + filename_of(item@.title) + ".torrent"@,
{
    let mut name = joined(&item.id, "-");
    name.append(&sanitize_filename(&item.title));
    name.append(".torrent");
    name
}

/// Checks that a torrent file is not empty.
pub fn check_torrent(bytes: &Vec<u8>) -> (r: Result<(), String>)
    ensures
        match r {
            Ok(()) => bytes@.len() > 0,
            Err(message) => bytes@.len() == 0 && message@ == "Torrent response was empty"@,
        },
{
    if bytes.len() == 0 {
        Err("Torrent response was empty".to_string())
    } else {
        Ok(())
    }
}

/// The contents of how a submission begins.
pub enum StartView {
    Refused(Seq<char>),
    Settled(ItemView),
    Begun(SubmissionView),
}

/// How the submission of an item begins.
pub open spec fn start_of(inner: InnerView, id: Seq<char>) -> StartView {
    let items = inner.state.items;
    let item = item_with(items, id);
    if !has_item(items, id) {
        StartView::Refused("Item not found"@)
    } else if item.status == ItemStatus::Ignored {
        StartView::Refused("Ignored item cannot be submitted"@)
    } else if is_settled(item.status) {
        StartView::Settled(item)
    } else {
        StartView::Begun(
            SubmissionView { item, config: inner.state.config, phase: SubmitPhaseView::Check },
        )
    }
}

/// The contents of what came of beginning a submission.
pub open spec fn start_view(r: Result<SubmitStart, String>) -> StartView {
    match r {
        Err(message) => StartView::Refused(message@),
        Ok(SubmitStart::Settled(item)) => StartView::Settled(item@),
        Ok(SubmitStart::Begun(submission)) => StartView::Begun(submission@),
    }
}

impl Service {
    /// Begins to submit an item. An ignored item is refused, and one that was
    /// submitted needs nothing.
    pub fn submit_item(&self, id: &str) -> (r: Result<SubmitStart, String>)
        ensures
            start_view(r) == start_of(self.inner@, id@),
            ({
                let items = self.inner@.state.items;
                let item = item_with(items, id@);
                match r {
                    Err(message) => if has_item(items, id@) {
                        item.status == ItemStatus::Ignored && message@
                            == "Ignored item cannot be submitted"@
                    } else {
                        message@ == "Item not found"@
                    },
                    Ok(SubmitStart::Settled(settled)) => has_item(items, id@) && is_settled(
                        item.status,
                    ) && settled@ == item,
                    Ok(SubmitStart::Begun(submission)) => has_item(items, id@) && !is_settled(
                        item.status,
                    ) && item.status != ItemStatus::Ignored && submission@ == (SubmissionView {
                        item,
                        config: self.inner@.state.config,
                        phase: SubmitPhaseView::Check,
                    }),
                }
            }),
    {
        match item_place(&self.inner.state.items, id) {
            None => Err("Item not found".to_string()),
            Some(at) => {
                let item = self.inner.state.items[at].clone();
                match item.status {
                    ItemStatus::Ignored => Err("Ignored item cannot be submitted".to_string()),
                    ItemStatus::Completed | ItemStatus::Submitted | ItemStatus::Paused => Ok(
                        SubmitStart::Settled(item),
                    ),
                    _ => Ok(
                        SubmitStart::Begun(
                            Submission {
                                item,
                                config: self.inner.state.config.clone(),
                                phase: SubmitPhase::Check,
                            },
                        ),
                    ),
                }
            },
        }
    }
}

/// How far a submission is from its end.
pub open spec fn steps_left(phase: SubmitPhaseView) -> nat {
    match phase {
        SubmitPhaseView::Check => 6,
        SubmitPhaseView::Store => 5,
        SubmitPhaseView::Download => 4,
        SubmitPhaseView::Compare { .. } => 3,
        SubmitPhaseView::Add { .. } => 2,
        SubmitPhaseView::Wait { .. } => 1,
        _ => 0,
    }
}

/// Whether something is what a submission was to have done.
pub open spec fn is_awaited(phase: SubmitPhaseView, event: SubmitEvent) -> bool {
    match phase {
        SubmitPhaseView::Check => event is Checked,
        SubmitPhaseView::Store => event is Stored,
        SubmitPhaseView::Download => event is Downloaded,
        SubmitPhaseView::Compare { .. } => event is Listed,
        SubmitPhaseView::Add { .. } => event is Added,
        SubmitPhaseView::Wait { .. } => event is Waited,
        _ => false,
    }
}

/// A submission comes closer to its end with each thing that it was to have
/// done, and stays as it is with anything else: it ends after six at most.
pub proof fn law_submission_comes_to_an_end(
    submission: SubmissionView,
    event: SubmitEvent,
    items: Seq<ItemView>,
    now: Seq<char>,
)
    ensures
        is_awaited(submission.phase, event) ==> steps_left(
            advanced(submission, event, items, now).phase,
        ) < steps_left(submission.phase),
        !is_awaited(submission.phase, event) ==> advanced(submission, event, items, now)
            == submission,
        steps_left(submission.phase) == 0 <==> submission.is_over(),
{
}

/// A submission never turns its item into another, and never into one that
/// the feed has not: identity, title, source and first sight stay.
pub proof fn law_submission_keeps_identity(
    submission: SubmissionView,
    event: SubmitEvent,
    items: Seq<ItemView>,
    now: Seq<char>,
)
    ensures
        ({
            let after = advanced(submission, event, items, now);
            &&& after.item.id == submission.item.id
            &&& after.item.unique_key == submission.item.unique_key
            &&& after.item.title == submission.item.title
            &&& after.item.enclosure_url == submission.item.enclosure_url
            &&& after.item.first_seen_at == submission.item.first_seen_at
            &&& after.config == submission.config
        }),
{
}

/// A submission that ends leaves its item submitted or failed, and failed
/// with the words that are told.
pub proof fn law_submission_settles_its_item(
    submission: SubmissionView,
    event: SubmitEvent,
    items: Seq<ItemView>,
    now: Seq<char>,
)
    requires
        !submission.is_over(),
        advanced(submission, event, items, now).is_over(),
    ensures
        ({
            let after = advanced(submission, event, items, now);
            match after.phase {
                SubmitPhaseView::Submitted => after.item.status == ItemStatus::Submitted
                    && after.item.last_error is None,
                SubmitPhaseView::Duplicate => after.item.status == ItemStatus::Submitted
                    && after.item.last_error is Some,
                SubmitPhaseView::Failed(message) => after.item.status == ItemStatus::Failed
                    && after.item.last_error == Some(message),
                _ => false,
            }
        }),
{
}

/// A torrent that another item has, or that BitComet has, is never added
/// again.
pub proof fn law_known_torrent_is_not_added(
    submission: SubmissionView,
    hashes: Vec<String>,
    items: Seq<ItemView>,
    now: Seq<char>,
)
    requires
        submission.phase matches SubmitPhaseView::Compare { info_hash, .. } && (is_known(
            items,
            submission.item.id,
            info_hash,
        ) || texts(hashes@).contains(info_hash)),
    ensures
        advanced(submission, SubmitEvent::Listed(hashes), items, now).phase is Duplicate,
{
}

} // verus!
