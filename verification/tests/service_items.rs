//! The items of the service.

use mikan::clock::Moment;
use mikan::models::{
    AppConfig, AppState, BitCometTask, FeedItem, ItemStatus, ParsedRssItem,
};
use mikan::service::completion::{bitcomet_task_completed, named_by_task, Presence};
use mikan::service::files::{
    cached_torrent_message, copy_entry, delete_download_target, deletion_message,
    download_path_exists, migrate_legacy_data, removes_cached_torrent, resolve_data_dir,
    resolve_item_directory, unwritable_message, CopyStep, Deletion, DownloadFacts,
};
use mikan::service::items::{
    action_message, download_progress, item_with_progress, merge_items, restored_item_status,
    rss_timestamp, ItemAction, Progress,
};
use mikan::service::refresh::{RefreshStart, RefreshStep};
use mikan::service::state::Service;
use mikan::service::submit::{
    check_torrent, torrent_file_name, Submission, SubmitEvent, SubmitPhase, SubmitStart,
};
use mikan::util::PathFacts;

fn moment(millis: i64) -> Moment {
    Moment::after_millis(millis).unwrap()
}

fn item(id: &str, status: ItemStatus) -> FeedItem {
    FeedItem {
        id: id.to_string(),
        unique_key: format!("key-{id}"),
        title: format!("title {id}"),
        link: String::new(),
        guid: String::new(),
        pub_date: String::new(),
        enclosure_url: "https://example.test/a.torrent".to_string(),
        status,
        download_dir: String::new(),
        torrent_path: None,
        info_hash: None,
        save_name: None,
        save_location: None,
        total_bytes: None,
        first_seen_at: "1970-01-01T00:00:00.000Z".to_string(),
        updated_at: String::new(),
        submitted_at: None,
        completed_at: None,
        ignored_at: None,
        last_error: Some("earlier".to_string()),
    }
}

fn service(items: Vec<FeedItem>) -> Service {
    let config = AppConfig {
        rss_url: "https://example.test/rss?token=t".to_string(),
        download_dir: "D".to_string(),
        bitcomet_exe: "B".to_string(),
        ..AppConfig::default()
    };
    let state = AppState { version: 1, config, items };
    let text = || String::new();
    Service::new(text(), text(), text(), text(), text(), state, &moment(0))
}

fn task(info_hash: &str) -> BitCometTask {
    BitCometTask {
        task_id: "1".to_string(),
        info_hash: info_hash.to_string(),
        finish_date: String::new(),
        left: Some(1024),
        progress_percent: Some(50.0f64.to_bits()),
        completed: Some(false),
        status: "downloading".to_string(),
        save_name: String::new(),
        show_name: String::new(),
        save_location: String::new(),
    }
}

fn facts(path: &str, name: &str) -> PathFacts {
    PathFacts {
        path: path.to_string(),
        file_name: Some(name.to_string()),
        parent: None,
        parent_is_dir: false,
        is_file: false,
        is_dir: false,
        exists: false,
    }
}

fn file(path: &str, name: &str) -> PathFacts {
    PathFacts { is_file: true, exists: true, ..facts(path, name) }
}

fn folder(path: &str, name: &str) -> PathFacts {
    PathFacts { is_dir: true, exists: true, ..facts(path, name) }
}

fn some(text: &str) -> Option<String> {
    Some(text.to_string())
}

#[test]
fn existing_download_directory_does_not_mark_task_complete() {
    let task = BitCometTask { save_location: "/tmp".to_string(), ..task("abc") };
    assert!(!bitcomet_task_completed(&task));
}

#[test]
fn finishes_a_task_by_any_sign() {
    let signs = [
        BitCometTask { finish_date: "today".to_string(), ..task("a") },
        BitCometTask { left: Some(0), ..task("a") },
        BitCometTask { completed: Some(true), ..task("a") },
        BitCometTask { progress_percent: Some(99.999f64.to_bits()), ..task("a") },
        BitCometTask { progress_percent: Some(f64::INFINITY.to_bits()), ..task("a") },
        BitCometTask { status: " Seeding ".to_string(), ..task("a") },
    ];
    for sign in signs {
        assert!(bitcomet_task_completed(&sign), "{sign:?}");
    }
    let others = [
        BitCometTask { progress_percent: Some(99.998f64.to_bits()), ..task("a") },
        BitCometTask { progress_percent: Some(f64::NAN.to_bits()), ..task("a") },
        BitCometTask { progress_percent: Some((-100.0f64).to_bits()), ..task("a") },
        BitCometTask { status: "seeding soon".to_string(), ..task("a") },
    ];
    for other in others {
        assert!(!bitcomet_task_completed(&other), "{other:?}");
    }
}

#[test]
fn unignored_downloadable_item_returns_to_queue() {
    assert_eq!(restored_item_status("https://example.test/item.torrent"), ItemStatus::Queued);
    assert_eq!(restored_item_status(""), ItemStatus::New);
}

fn download(location: PathFacts, inside: PathFacts) -> DownloadFacts {
    DownloadFacts { location, inside, name_parts: vec![true] }
}

#[test]
fn reports_a_missing_completed_download_as_deleted() {
    let presence = |location: &str, name: &str, facts: DownloadFacts| {
        download_path_exists(&some(location), &some(name), &facts)
    };
    let target = "/d/episode.mkv";
    assert_eq!(
        presence(target, "episode.mkv", download(file(target, "episode.mkv"), facts("", ""))),
        Some(true)
    );
    assert_eq!(
        presence(target, "episode.mkv", download(facts(target, "episode.mkv"), facts("", ""))),
        Some(false)
    );
    let inside = "/d/nested.mkv";
    assert_eq!(
        presence("/d", "nested.mkv", download(folder("/d", "d"), file(inside, "nested.mkv"))),
        Some(true)
    );
    assert_eq!(
        presence("/d", "nested.mkv", download(folder("/d", "d"), facts(inside, "nested.mkv"))),
        Some(false)
    );
    assert_eq!(presence(" ", "x", download(folder("", ""), folder("", ""))), None);
    assert_eq!(
        download_path_exists(&some("/d"), &some(" "), &download(folder("/d", "d"), facts("", ""))),
        Some(true)
    );
    assert_eq!(download_path_exists(&None, &None, &download(folder("", ""), facts("", ""))), None);
}

#[test]
fn deletes_local_download_file_as_a_fallback() {
    let facts = download(folder("/d", "d"), file("/d/episode.mkv", "episode.mkv"));
    assert_eq!(
        delete_download_target(&some("/d"), &some("episode.mkv"), &facts),
        Ok(Deletion::File("/d/episode.mkv".to_string()))
    );
}

#[test]
fn deletes_local_multi_file_download_directory_as_a_fallback() {
    let facts = download(folder("/d", "d"), folder("/d/series", "series"));
    assert_eq!(
        delete_download_target(&some("/d"), &some("series"), &facts),
        Ok(Deletion::Folder("/d/series".to_string()))
    );
}

#[test]
fn deletes_nothing_else() {
    let gone = download(folder("/d", "d"), facts("/d/x", "x"));
    assert_eq!(delete_download_target(&some("/d"), &some("x"), &gone), Ok(Deletion::Nothing));
    assert_eq!(delete_download_target(&some("/d"), &None, &gone), Ok(Deletion::Nothing));
    assert_eq!(delete_download_target(&None, &some("x"), &gone), Ok(Deletion::Nothing));
    let own = download(folder("/d/X", "X"), facts("/d/X/x", "x"));
    assert_eq!(
        delete_download_target(&some("/d/X"), &some("x"), &own),
        Ok(Deletion::Folder("/d/X".to_string()))
    );
    for name_parts in [vec![false], vec![true, true], vec![]] {
        let elsewhere = DownloadFacts { name_parts, ..own_facts() };
        assert_eq!(
            delete_download_target(&some("/d"), &some("../x"), &elsewhere).unwrap_err(),
            "本地下载文件删除失败：下载名称不是安全的单层路径"
        );
    }
    assert_eq!(deletion_message("/d", "busy"), "本地下载文件删除失败（/d）：busy");
}

fn own_facts() -> DownloadFacts {
    download(folder("/d", "d"), file("/d/x", "x"))
}

#[test]
fn resolves_the_folder_for_a_downloaded_file() {
    let parent = |facts: PathFacts| PathFacts {
        parent: some("/d"),
        parent_is_dir: true,
        ..facts
    };
    let target = "/d/episode.mkv";
    let resolve = |location: PathFacts, name: &str| {
        resolve_item_directory(&some(target), &some(name), &location, &facts("", ""))
    };
    assert_eq!(resolve(parent(file(target, "episode.mkv")), "episode.mkv").as_deref(), Some("/d"));
    assert_eq!(resolve(parent(facts(target, "episode.mkv")), "episode.mkv").as_deref(), Some("/d"));
    assert_eq!(resolve(parent(facts(target, "episode.mkv")), "Episode.mkv").as_deref(), Some("/d"));
    assert_eq!(resolve(parent(facts(target, "episode.mkv")), "other"), None);
    assert_eq!(resolve(folder(target, "x"), "other").as_deref(), Some(target));
    let configured = folder("/c", "c");
    assert_eq!(
        resolve_item_directory(&None, &None, &facts("", ""), &configured).as_deref(),
        Some("/c")
    );
}

#[test]
fn calculates_download_progress_from_remaining_bytes() {
    let percent = |total: u64, remaining: u64| {
        download_progress(total, remaining).map(|downloaded| {
            (downloaded, ((downloaded as f64 / total as f64) * 1000.0).round() / 10.0)
        })
    };
    assert_eq!(percent(1_000, 250), Some((750, 75.0)));
    assert_eq!(percent(0, 0), None);
    assert_eq!(download_progress(10, 11), Some(0));
}

#[test]
fn portable_installation_uses_adjacent_data_directory() {
    assert_eq!(resolve_data_dir("app", "local", true), vec!["app", "data"]);
}

#[test]
fn installed_application_uses_local_app_data() {
    assert_eq!(resolve_data_dir("app", "local", false), vec!["local", "data"]);
}

#[test]
fn migrates_legacy_data_without_overwriting_existing_destination() {
    assert!(migrate_legacy_data(false, true));
    assert!(!migrate_legacy_data(true, true));
    assert!(!migrate_legacy_data(false, false));
    assert_eq!(copy_entry(true, true), CopyStep::Descend);
    assert_eq!(copy_entry(false, true), CopyStep::Skip);
    assert_eq!(copy_entry(false, false), CopyStep::Copy);
    assert_eq!(unwritable_message("d", "e"), "数据目录不可写（d）：e");
}

#[test]
fn ignores_and_restores_an_item() {
    let mut service = service(vec![item("a", ItemStatus::Failed), item("b", ItemStatus::New)]);
    let ignored = service.ignore_item("a", &moment(0)).unwrap();
    assert_eq!(ignored.status, ItemStatus::Ignored);
    assert_eq!(ignored.ignored_at.as_deref(), Some("1970-01-01T00:00:00.000Z"));
    assert_eq!(ignored.last_error, None);
    assert_eq!(service.ignore_item("c", &moment(0)).unwrap_err(), "Item not found");
    assert_eq!(
        service.unignore_item("b", &moment(0)).unwrap_err(),
        "Only ignored items can be restored"
    );
    assert_eq!(service.unignore_item("c", &moment(0)).unwrap_err(), "Item not found");
    service.inner.state.config.auto_download_enabled = true;
    let restored = service.unignore_item("a", &moment(5)).unwrap();
    assert_eq!(restored.status, ItemStatus::Queued);
    assert_eq!(restored.ignored_at, None);
    assert_eq!(service.inner.next_poll_at.as_deref(), Some("1970-01-01T00:00:01.005Z"));
    assert_eq!(service.item("a").unwrap().updated_at, "1970-01-01T00:00:00.005Z");
    assert_eq!(service.item("b").unwrap().status, ItemStatus::New);
}

#[test]
fn retries_only_what_failed() {
    let mut service = service(vec![item("a", ItemStatus::Failed), item("b", ItemStatus::New)]);
    assert_eq!(service.retry_item("a", &moment(0)), Ok(()));
    assert_eq!(service.item("a").unwrap().status, ItemStatus::Queued);
    assert_eq!(
        service.retry_item("b", &moment(0)).unwrap_err(),
        "Only failed items can be retried"
    );
    assert_eq!(service.retry_item("c", &moment(0)).unwrap_err(), "Item not found");
}

#[test]
fn notes_what_was_done_with_a_task() {
    let known = FeedItem { info_hash: some("h"), ..item("a", ItemStatus::Submitted) };
    let mut service = service(vec![known, item("b", ItemStatus::New)]);
    assert_eq!(service.control_item("b").unwrap_err(), "任务尚无 InfoHash");
    assert_eq!(service.control_item("c").unwrap_err(), "Item not found");
    let (found, hash) = service.control_item("a").unwrap();
    assert_eq!(hash, "h");
    assert_eq!(service.pause_item(found, &moment(0)).unwrap().status, ItemStatus::Paused);
    let (found, _) = service.control_item("a").unwrap();
    assert_eq!(found.status, ItemStatus::Paused);
    assert_eq!(service.resume_item(found, &moment(0)).unwrap().status, ItemStatus::Submitted);
    let (mut found, _) = service.control_item("a").unwrap();
    found.torrent_path = some("t");
    let deleted = service.delete_item_task(found, &moment(0)).unwrap();
    assert_eq!((deleted.status, deleted.torrent_path), (ItemStatus::Deleted, None));
    assert_eq!(
        service.pause_item(item("c", ItemStatus::New), &moment(0)).unwrap_err(),
        "Item not found"
    );
    assert_eq!(action_message(ItemAction::Ignored, "t"), "Ignored item t");
    assert_eq!(action_message(ItemAction::Restored, "t"), "Restored ignored item t");
    assert_eq!(action_message(ItemAction::Paused, "t"), "Paused BitComet task t");
    assert_eq!(action_message(ItemAction::Resumed, "t"), "Resumed BitComet task t");
    assert_eq!(action_message(ItemAction::Deleted, "t"), "Deleted BitComet task and files t");
}

#[test]
fn opens_the_folder_of_an_item() {
    let service = service(vec![item("a", ItemStatus::New)]);
    let nowhere = facts("", "");
    assert_eq!(
        service.open_item_directory("a", &nowhere, &folder("D", "D")).as_deref(),
        Ok("D")
    );
    assert_eq!(
        service.open_item_directory("a", &nowhere, &nowhere).unwrap_err(),
        "Download directory does not exist"
    );
    assert_eq!(
        service.open_item_directory("c", &nowhere, &nowhere).unwrap_err(),
        "Item not found"
    );
}

fn parsed(key: &str, pub_date: &str) -> ParsedRssItem {
    ParsedRssItem {
        title: format!("new {key}"),
        link: String::new(),
        guid: key.to_string(),
        pub_date: pub_date.to_string(),
        total_bytes: None,
        enclosure_url: "https://example.test/b.torrent".to_string(),
        unique_key: key.to_string(),
    }
}

#[test]
fn merges_the_feed() {
    let mut items = vec![FeedItem { total_bytes: Some(5), ..item("a", ItemStatus::Completed) }];
    let feed = vec![
        parsed("g1", "2026-07-31T01:35:21.104"),
        parsed("key-a", "Thu, 01 Jan 1970 00:00:10 GMT"),
        parsed("g2", "2027-01-01T00:00:00Z"),
    ];
    merge_items(&mut items, &feed, "D", &moment(7));
    let keys = |items: &Vec<FeedItem>| {
        items.iter().map(|item| item.unique_key.clone()).collect::<Vec<_>>()
    };
    assert_eq!(keys(&items), vec!["g2", "g1", "key-a"]);
    let old = &items[2];
    assert_eq!((old.id.as_str(), old.status), ("a", ItemStatus::Completed));
    assert_eq!((old.title.as_str(), old.total_bytes), ("new key-a", Some(5)));
    assert_eq!(old.updated_at, "1970-01-01T00:00:00.007Z");
    let new = &items[1];
    assert_eq!(new.id, "711430f6164e9380");
    assert_eq!((new.status, new.download_dir.as_str()), (ItemStatus::Queued, "D"));
    assert_eq!(new.first_seen_at, "1970-01-01T00:00:00.007Z");
    merge_items(&mut items, &feed, "E", &moment(8));
    assert_eq!(keys(&items), vec!["g2", "g1", "key-a"]);
    assert_eq!(items[1].download_dir, "D");
}

#[test]
fn dates_an_item_by_what_it_has() {
    let dated = |pub_date: &str, first_seen_at: &str| {
        rss_timestamp(&FeedItem {
            pub_date: pub_date.to_string(),
            first_seen_at: first_seen_at.to_string(),
            ..item("a", ItemStatus::New)
        })
    };
    assert_eq!(dated("Thu, 01 Jan 1970 00:00:10 +0000", ""), 10);
    assert_eq!(dated("1970-01-01T00:00:20+00:00", ""), 20);
    assert_eq!(dated("1970-01-01T00:00:30.5", ""), 30);
    assert_eq!(dated("yesterday", "1970-01-01T00:00:40.000Z"), 40);
    assert_eq!(dated("yesterday", "today"), 0);
}

#[test]
fn lists_items_by_when_they_were_seen() {
    let seen = |id: &str, at: &str| FeedItem {
        first_seen_at: at.to_string(),
        ..item(id, ItemStatus::New)
    };
    let service = service(vec![seen("a", "1"), seen("b", "3"), seen("c", "1"), seen("d", "2")]);
    let ids: Vec<String> = service.listed_items().into_iter().map(|item| item.id).collect();
    assert_eq!(ids, vec!["b", "d", "a", "c"]);
}

#[test]
fn downloads_what_is_pending() {
    let service = service(vec![
        item("a", ItemStatus::New),
        item("b", ItemStatus::Submitted),
        item("c", ItemStatus::Failed),
        item("d", ItemStatus::Ignored),
        item("e", ItemStatus::Queued),
    ]);
    assert_eq!(service.pending_ids(), vec!["a", "c", "e"]);
}

#[test]
fn shows_how_far_an_item_is() {
    let known = || FeedItem { info_hash: some("AA"), ..item("a", ItemStatus::Submitted) };
    let tasks = vec![BitCometTask { left: Some(300), ..task("aa") }];
    let torrent = b"d4:infod6:lengthi1000eee".to_vec();
    let shown = item_with_progress(known(), &tasks, &Some(torrent));
    assert_eq!(shown.item.total_bytes, Some(1000));
    assert_eq!((shown.remaining, shown.downloaded), (Some(300), Some(700)));
    assert_eq!(shown.progress, Progress::Part { downloaded: 700, total: 1000 });
    let shown = item_with_progress(known(), &tasks, &Some(b"broken".to_vec()));
    assert_eq!((shown.remaining, shown.downloaded), (Some(300), None));
    assert_eq!(shown.progress, Progress::Unknown);
    let small = FeedItem { total_bytes: Some(200), ..known() };
    let shown = item_with_progress(small, &tasks, &None);
    assert_eq!((shown.remaining, shown.downloaded), (Some(200), Some(0)));
    let done = FeedItem {
        total_bytes: Some(9),
        status: ItemStatus::Completed,
        info_hash: None,
        ..known()
    };
    let shown = item_with_progress(done, &tasks, &None);
    assert_eq!((shown.remaining, shown.downloaded), (None, Some(9)));
    assert_eq!(shown.progress, Progress::Done);
}

fn followed(before: FeedItem, task: BitCometTask, presence: Presence) -> (FeedItem, bool) {
    let mut service = service(vec![before]);
    let changed =
        service.refresh_completion_status_with_tasks(&vec![task], &vec![presence], &moment(9));
    (service.item("a").unwrap(), changed)
}

fn submitted() -> FeedItem {
    FeedItem { info_hash: some("AA"), ..item("a", ItemStatus::Submitted) }
}

const UNKNOWN: Presence = Presence { before: None, after: None };

#[test]
fn follows_the_task_of_an_item() {
    let finished = || BitCometTask {
        left: Some(0),
        show_name: "shown".to_string(),
        save_location: "/d".to_string(),
        ..task("aa")
    };
    let (after, changed) = followed(submitted(), finished(), UNKNOWN);
    assert!(changed);
    assert_eq!(after.status, ItemStatus::Completed);
    assert_eq!(after.save_name.as_deref(), Some("shown"));
    assert_eq!(after.save_location.as_deref(), Some("/d"));
    assert_eq!(after.completed_at.as_deref(), Some("1970-01-01T00:00:00.009Z"));
    assert_eq!(after.last_error, None);
    let named = named_by_task(&submitted(), &vec![finished()]);
    assert_eq!(named.save_location.as_deref(), Some("/d"));
    assert_eq!(named.status, ItemStatus::Submitted);

    let lost = Presence { before: None, after: Some(false) };
    assert_eq!(followed(submitted(), finished(), lost).0.status, ItemStatus::Deleted);

    let stopped = BitCometTask { status: "Task Stopped".to_string(), ..task("aa") };
    let (after, changed) = followed(submitted(), stopped.clone(), UNKNOWN);
    assert_eq!((after.status, changed), (ItemStatus::Paused, true));
    let paused = FeedItem { status: ItemStatus::Paused, ..submitted() };
    assert!(!followed(paused, stopped, UNKNOWN).1);

    let (after, changed) = followed(submitted(), task("aa"), UNKNOWN);
    assert_eq!((after.status, changed), (ItemStatus::Submitted, false));
    assert!(!followed(submitted(), BitCometTask { left: Some(0), ..task("bb") }, UNKNOWN).1);
}

#[test]
fn leaves_ignored_and_deleted_items_alone() {
    let finished = BitCometTask { left: Some(0), ..task("aa") };
    for status in [ItemStatus::Ignored, ItemStatus::Deleted] {
        let before = FeedItem { status, ..submitted() };
        let (after, changed) = followed(before, finished.clone(), UNKNOWN);
        assert_eq!((after.status, changed), (status, false));
    }
    let completed = FeedItem { status: ItemStatus::Completed, ..submitted() };
    let missing = Presence { before: Some(false), after: Some(true) };
    let (after, changed) = followed(completed, finished, missing);
    assert_eq!((after.status, changed), (ItemStatus::Deleted, true));
}

fn begin(service: &Service, id: &str) -> Submission {
    match service.submit_item(id).unwrap() {
        SubmitStart::Begun(submission) => submission,
        SubmitStart::Settled(item) => panic!("{item:?}"),
    }
}

fn torrent() -> Vec<u8> {
    b"d4:infod6:lengthi12e4:name1:nee".to_vec()
}

fn checked() -> SubmitEvent {
    SubmitEvent::Checked(folder("D", "D"), file("B", "BitComet.exe"))
}

fn downloaded() -> SubmitEvent {
    SubmitEvent::Downloaded(Ok(("t.torrent".to_string(), torrent())))
}

fn failure(submission: &Submission) -> &str {
    match &submission.phase {
        SubmitPhase::Failed(message) => message,
        other => panic!("{other:?}"),
    }
}

#[test]
fn submits_an_item() {
    let service = service(vec![item("a", ItemStatus::Queued)]);
    let items = &service.inner.state.items;
    let mut submission = begin(&service, "a");
    submission.advance(checked(), items, &moment(1));
    assert_eq!(submission.item.status, ItemStatus::DownloadingTorrent);
    assert!(matches!(submission.phase, SubmitPhase::Store));
    submission.advance(SubmitEvent::Waited(true), items, &moment(1));
    assert!(matches!(submission.phase, SubmitPhase::Store));
    submission.advance(SubmitEvent::Stored(Ok(())), items, &moment(2));
    submission.advance(downloaded(), items, &moment(3));
    assert_eq!(submission.item.total_bytes, Some(12));
    assert_eq!(submission.item.save_name.as_deref(), Some("n"));
    assert!(submission.report().is_none());
    submission.advance(SubmitEvent::Listed(vec![]), items, &moment(4));
    submission.advance(SubmitEvent::Added(Ok(())), items, &moment(5));
    submission.advance(SubmitEvent::Waited(true), items, &moment(6));
    assert_eq!(submission.item.status, ItemStatus::Submitted);
    assert_eq!(submission.item.torrent_path.as_deref(), Some("t.torrent"));
    assert_eq!(submission.item.download_dir, "D");
    assert_eq!(submission.item.submitted_at.as_deref(), Some("1970-01-01T00:00:00.006Z"));
    assert_eq!(submission.item.last_error, None);
    assert_eq!(
        submission.report(),
        Some((false, "Submitted torrent to BitComet: title a".to_string()))
    );
}

#[test]
fn skips_a_torrent_that_is_known() {
    let hash = mikan::torrent::parse_metadata(&torrent()).ok().unwrap().info_hash;
    let twin = |status: ItemStatus| FeedItem { info_hash: some(&hash), ..item("b", status) };
    let compare = |other: FeedItem, hashes: Vec<String>| {
        let service = service(vec![item("a", ItemStatus::Failed), other]);
        let items = &service.inner.state.items;
        let mut submission = begin(&service, "a");
        submission.advance(checked(), items, &moment(0));
        submission.advance(SubmitEvent::Stored(Ok(())), items, &moment(0));
        submission.advance(downloaded(), items, &moment(0));
        submission.advance(SubmitEvent::Listed(hashes), items, &moment(0));
        submission
    };
    let duplicate = compare(twin(ItemStatus::Ignored), vec![]);
    assert!(matches!(duplicate.phase, SubmitPhase::Duplicate));
    assert_eq!(duplicate.item.status, ItemStatus::Submitted);
    assert_eq!(
        duplicate.item.last_error.as_deref(),
        Some("Duplicate torrent infohash already exists; skipped new submission")
    );
    assert_eq!(
        duplicate.report(),
        Some((false, "Skipped duplicate torrent title a".to_string()))
    );
    let external = compare(item("b", ItemStatus::New), vec![hash.clone()]);
    assert!(matches!(external.phase, SubmitPhase::Duplicate));
    let failed_before = compare(twin(ItemStatus::Failed), vec!["other".to_string()]);
    assert!(matches!(failed_before.phase, SubmitPhase::Add { .. }));
}

#[test]
fn says_why_an_item_cannot_be_submitted() {
    let service = service(vec![
        item("a", ItemStatus::New),
        item("i", ItemStatus::Ignored),
        item("s", ItemStatus::Submitted),
        FeedItem { enclosure_url: String::new(), ..item("n", ItemStatus::New) },
    ]);
    let items = &service.inner.state.items;
    assert_eq!(service.submit_item("c").unwrap_err(), "Item not found");
    assert_eq!(service.submit_item("i").unwrap_err(), "Ignored item cannot be submitted");
    assert!(matches!(service.submit_item("s"), Ok(SubmitStart::Settled(_))));
    let after = |id: &str, events: Vec<SubmitEvent>| {
        let mut submission = begin(&service, id);
        for event in events {
            submission.advance(event, items, &moment(0));
        }
        submission
    };
    let broken = |text: &str| Err(text.to_string());
    let stored = || SubmitEvent::Stored(Ok(()));
    assert_eq!(
        failure(&after("n", vec![checked()])),
        "RSS item does not include a torrent enclosure URL"
    );
    let nowhere = SubmitEvent::Checked(facts("", ""), file("B", "BitComet.exe"));
    assert_eq!(failure(&after("a", vec![nowhere])), "Download directory does not exist");
    let other = SubmitEvent::Checked(folder("D", "D"), file("B", "other.exe"));
    assert_eq!(failure(&after("a", vec![other])), "BitComet executable is not configured");
    let unsaved = SubmitEvent::Stored(broken("full"));
    assert_eq!(failure(&after("a", vec![checked(), unsaved])), "full");
    let offline = SubmitEvent::Downloaded(Err("offline".to_string()));
    assert_eq!(failure(&after("a", vec![checked(), stored(), offline])), "offline");
    let garbage = SubmitEvent::Downloaded(Ok(("t".to_string(), b"x".to_vec())));
    assert_eq!(
        failure(&after("a", vec![checked(), stored(), garbage])),
        "Torrent root is not a bencoded dictionary"
    );
    let listed = || SubmitEvent::Listed(vec![]);
    let unadded = SubmitEvent::Added(broken("Failed to start BitComet: x"));
    assert_eq!(
        failure(&after("a", vec![checked(), stored(), downloaded(), listed(), unadded])),
        "Failed to start BitComet: x"
    );
    let added = SubmitEvent::Added(Ok(()));
    let late = SubmitEvent::Waited(false);
    let submission =
        after("a", vec![checked(), stored(), downloaded(), listed(), added, late]);
    assert_eq!(
        failure(&submission),
        "BitComet did not confirm the submitted torrent within 10 seconds"
    );
    assert_eq!(submission.item.status, ItemStatus::Failed);
    assert_eq!(
        submission.report(),
        Some((
            true,
            "Submit failed for title a: BitComet did not confirm the submitted torrent within 10 seconds"
                .to_string()
        ))
    );
}

#[test]
fn names_torrent_files_after_their_items() {
    let named = FeedItem { title: "a/b".to_string(), ..item("x", ItemStatus::New) };
    assert_eq!(torrent_file_name(&named), "x-a_b.torrent");
    assert_eq!(check_torrent(&vec![]).unwrap_err(), "Torrent response was empty");
    assert_eq!(check_torrent(&vec![1]), Ok(()));
}

#[test]
fn refreshes_the_feed() {
    let mut service = service(vec![item("a", ItemStatus::Completed)]);
    match service.begin_refresh(&moment(3)) {
        RefreshStart::Started(message) => {
            assert_eq!(message, "Refreshing RSS https://example.test/rss?token=***");
        }
        other => panic!("{other:?}"),
    }
    assert!(service.inner.polling);
    assert_eq!(service.inner.last_poll_at.as_deref(), Some("1970-01-01T00:00:00.003Z"));
    assert!(matches!(service.begin_refresh(&moment(4)), RefreshStart::Busy));
    let next = service.feed_fetched(&Ok(vec![parsed("g1", "")]), &moment(5));
    assert!(matches!(next.step, RefreshStep::Save));
    assert_eq!(next.told, None);
    assert_eq!(service.inner.state.items.len(), 2);
    let next = service.feed_saved(&Ok(()), &moment(6));
    assert!(matches!(next.step, RefreshStep::LookAfter));
    assert_eq!(next.told, Some((false, "RSS refresh completed".to_string())));
    assert!(!service.inner.polling);
    let next = service.items_looked_after(&Ok(()), false);
    assert!(matches!(next.step, RefreshStep::Finish));
    match service.items_looked_after(&Ok(()), true).step {
        RefreshStep::Submit(ids) => assert_eq!(ids, service.pending_ids()),
        other => panic!("{other:?}"),
    }
    match service.items_looked_after(&Err("gone".to_string()), true).step {
        RefreshStep::Fail(error) => assert_eq!(error, "gone"),
        other => panic!("{other:?}"),
    }

    service.begin_refresh(&moment(7));
    let next = service.feed_fetched(&Err("offline".to_string()), &moment(8));
    assert!(matches!(next.step, RefreshStep::Fail(error) if error == "offline"));
    assert_eq!(next.told, Some((true, "RSS refresh failed: offline".to_string())));
    assert!(!service.inner.polling);
    assert_eq!(service.inner.last_poll_error.as_deref(), Some("offline"));
    assert_eq!(service.inner.state.items.len(), 2);

    service.begin_refresh(&moment(9));
    assert_eq!(service.inner.last_poll_error, None);
    let next = service.feed_saved(&Err("full".to_string()), &moment(9));
    assert!(matches!(next.step, RefreshStep::Fail(error) if error == "full"));
    assert_eq!(next.told, Some((true, "RSS state could not be saved: full".to_string())));
    assert_eq!(service.inner.last_poll_error.as_deref(), Some("full"));

    service.inner.state.config.rss_url = String::new();
    match service.begin_refresh(&moment(9)) {
        RefreshStart::Refused(message) => {
            assert_eq!(message, "尚未配置订阅，请先在配置页填写并保存 RSS 地址。");
        }
        other => panic!("{other:?}"),
    }
}

#[test]
fn removes_a_torrent_file_only_from_its_folder() {
    let parts = |list: &[&str]| list.iter().map(|part| part.to_string()).collect::<Vec<_>>();
    let cache = parts(&["/", "data", "torrent-cache"]);
    let kept = parts(&["/", "data", "torrent-cache", "a.torrent"]);
    assert!(removes_cached_torrent(&kept, &cache, true));
    assert!(!removes_cached_torrent(&kept, &cache, false));
    assert!(!removes_cached_torrent(&parts(&["/", "data"]), &cache, true));
    assert!(!removes_cached_torrent(&parts(&["/", "data", "other", "a.torrent"]), &cache, true));
    assert_eq!(cached_torrent_message("locked"), "种子缓存删除失败：locked");
}

#[test]
fn takes_the_same_feed_in_twice() {
    let mut items = vec![item("a", ItemStatus::Completed)];
    let feed = vec![
        ParsedRssItem { title: "first".to_string(), ..parsed("g1", "") },
        parsed("g2", "2024-01-02T03:04:05"),
        ParsedRssItem { title: "last".to_string(), ..parsed("g1", "") },
    ];
    merge_items(&mut items, &feed, "D:\\", &moment(1));
    let once = items.clone();
    assert_eq!(once.len(), 3);
    merge_items(&mut items, &feed, "D:\\", &moment(2));
    assert_eq!(items.len(), once.len());
    for (before, after) in once.iter().zip(&items) {
        let again = FeedItem { updated_at: before.updated_at.clone(), ..after.clone() };
        assert_eq!(format!("{again:?}"), format!("{before:?}"));
    }
    assert!(items.iter().any(|item| item.title == "last"));
}
