//! What the application keeps: its configuration, the items of the feed and
//! the tasks that BitComet reports.

use vstd::prelude::*;
use vstd::string::*;

use crate::text::{clone_optional, optional};

verus! {

/// Whether requests go through the proxy of the system.
#[derive(Clone, Copy, Debug, PartialEq, Eq, Structural)]
pub enum ProxyMode {
    NoProxy,
    System,
}

impl Default for ProxyMode {
    fn default() -> (r: Self)
        ensures
            r == ProxyMode::System,
    {
        ProxyMode::System
    }
}

/// The configuration of the application.
#[derive(Debug, PartialEq, Eq)]
pub struct AppConfig {
    pub rss_url: String,
    pub download_dir: String,
    pub bitcomet_exe: String,
    pub poll_interval_minutes: u64,
    pub port: u16,
    pub bind_host: String,
    pub auto_download_enabled: bool,
    pub proxy_mode: ProxyMode,
}

/// The contents of an `AppConfig`.
pub struct ConfigView {
    pub rss_url: Seq<char>,
    pub download_dir: Seq<char>,
    pub bitcomet_exe: Seq<char>,
    pub poll_interval_minutes: u64,
    pub port: u16,
    pub bind_host: Seq<char>,
    pub auto_download_enabled: bool,
    pub proxy_mode: ProxyMode,
}

impl View for AppConfig {
    type V = ConfigView;

    open spec fn view(&self) -> ConfigView {
        ConfigView {
            rss_url: self.rss_url@,
            download_dir: self.download_dir@,
            bitcomet_exe: self.bitcomet_exe@,
            poll_interval_minutes: self.poll_interval_minutes,
            port: self.port,
            bind_host: self.bind_host@,
            auto_download_enabled: self.auto_download_enabled,
            proxy_mode: self.proxy_mode,
        }
    }
}

impl Clone for AppConfig {
    fn clone(&self) -> (r: Self)
        ensures
            r == *self,
    {
        AppConfig {
            rss_url: self.rss_url.clone(),
            download_dir: self.download_dir.clone(),
            bitcomet_exe: self.bitcomet_exe.clone(),
            poll_interval_minutes: self.poll_interval_minutes,
            port: self.port,
            bind_host: self.bind_host.clone(),
            auto_download_enabled: self.auto_download_enabled,
            proxy_mode: self.proxy_mode,
        }
    }
}

/// The configuration before anything is set.
pub open spec fn default_config() -> ConfigView {
    ConfigView {
        rss_url: Seq::empty(),
        download_dir: Seq::empty(),
        bitcomet_exe: Seq::empty(),
        poll_interval_minutes: 15,
        port: 3199,
        bind_host: "127.0.0.1"@,
        auto_download_enabled: false,
        proxy_mode: ProxyMode::System,
    }
}

/// The version of the state file that this library writes.
pub fn default_version() -> (r: u32)
    ensures
        r == 1,
{
    1
}

/// The minutes between two polls where none are set.
pub fn default_poll_interval() -> (r: u64)
    ensures
        r == 15,
{
    15
}

/// The preferred port where none is set.
pub fn default_port() -> (r: u16)
    ensures
        r == 3199,
{
    3199
}

/// The only address that is ever listened on.
pub fn default_bind_host() -> (r: String)
    ensures
        r@ == "127.0.0.1"@,
{
    "127.0.0.1".to_string()
}

impl Default for AppConfig {
    fn default() -> (r: Self)
        ensures
            r@ == default_config(),
    {
        AppConfig {
            rss_url: String::new(),
            download_dir: String::new(),
            bitcomet_exe: String::new(),
            poll_interval_minutes: default_poll_interval(),
            port: default_port(),
            bind_host: default_bind_host(),
            auto_download_enabled: false,
            proxy_mode: ProxyMode::default(),
        }
    }
}

impl AppConfig {
    /// Whether two configurations are the same.
    pub fn same_as(&self, other: &AppConfig) -> (r: bool)
        ensures
            r == (self@ == other@),
    {
        self.rss_url == other.rss_url && self.download_dir == other.download_dir
            && self.bitcomet_exe == other.bitcomet_exe && self.poll_interval_minutes
            == other.poll_interval_minutes && self.port == other.port && self.bind_host
            == other.bind_host && self.auto_download_enabled == other.auto_download_enabled
            && self.proxy_mode == other.proxy_mode
    }
}

/// A change of the configuration: what is absent stays as it is.
#[derive(Debug, Default)]
pub struct ConfigPatch {
    pub rss_url: Option<String>,
    pub download_dir: Option<String>,
    pub bitcomet_exe: Option<String>,
    pub poll_interval_minutes: Option<i64>,
    pub port: Option<i64>,
    pub proxy_mode: Option<ProxyMode>,
}

/// Where an item stands on its way from the feed to a finished download.
#[derive(Clone, Copy, Debug, PartialEq, Eq, Structural)]
pub enum ItemStatus {
    New,
    Queued,
    DownloadingTorrent,
    Submitted,
    Paused,
    Completed,
    Deleted,
    Ignored,
    Failed,
}

/// An item of the feed, with what has become of it.
#[derive(Debug)]
pub struct FeedItem {
    pub id: String,
    pub unique_key: String,
    pub title: String,
    pub link: String,
    pub guid: String,
    pub pub_date: String,
    pub enclosure_url: String,
    pub status: ItemStatus,
    pub download_dir: String,
    pub torrent_path: Option<String>,
    pub info_hash: Option<String>,
    pub save_name: Option<String>,
    pub save_location: Option<String>,
    pub total_bytes: Option<u64>,
    pub first_seen_at: String,
    pub updated_at: String,
    pub submitted_at: Option<String>,
    pub completed_at: Option<String>,
    pub ignored_at: Option<String>,
    pub last_error: Option<String>,
}

/// The contents of a `FeedItem`.
pub struct ItemView {
    pub id: Seq<char>,
    pub unique_key: Seq<char>,
    pub title: Seq<char>,
    pub link: Seq<char>,
    pub guid: Seq<char>,
    pub pub_date: Seq<char>,
    pub enclosure_url: Seq<char>,
    pub status: ItemStatus,
    pub download_dir: Seq<char>,
    pub torrent_path: Option<Seq<char>>,
    pub info_hash: Option<Seq<char>>,
    pub save_name: Option<Seq<char>>,
    pub save_location: Option<Seq<char>>,
    pub total_bytes: Option<u64>,
    pub first_seen_at: Seq<char>,
    pub updated_at: Seq<char>,
    pub submitted_at: Option<Seq<char>>,
    pub completed_at: Option<Seq<char>>,
    pub ignored_at: Option<Seq<char>>,
    pub last_error: Option<Seq<char>>,
}

impl View for FeedItem {
    type V = ItemView;

    open spec fn view(&self) -> ItemView {
        ItemView {
            id: self.id@,
            unique_key: self.unique_key@,
            title: self.title@,
            link: self.link@,
            guid: self.guid@,
            pub_date: self.pub_date@,
            enclosure_url: self.enclosure_url@,
            status: self.status,
            download_dir: self.download_dir@,
            torrent_path: optional(self.torrent_path),
            info_hash: optional(self.info_hash),
            save_name: optional(self.save_name),
            save_location: optional(self.save_location),
            total_bytes: self.total_bytes,
            first_seen_at: self.first_seen_at@,
            updated_at: self.updated_at@,
            submitted_at: optional(self.submitted_at),
            completed_at: optional(self.completed_at),
            ignored_at: optional(self.ignored_at),
            last_error: optional(self.last_error),
        }
    }
}

impl Clone for FeedItem {
    fn clone(&self) -> (r: Self)
        ensures
            r == *self,
    {
        FeedItem {
            id: self.id.clone(),
            unique_key: self.unique_key.clone(),
            title: self.title.clone(),
            link: self.link.clone(),
            guid: self.guid.clone(),
            pub_date: self.pub_date.clone(),
            enclosure_url: self.enclosure_url.clone(),
            status: self.status,
            download_dir: self.download_dir.clone(),
            torrent_path: clone_optional(&self.torrent_path),
            info_hash: clone_optional(&self.info_hash),
            save_name: clone_optional(&self.save_name),
            save_location: clone_optional(&self.save_location),
            total_bytes: self.total_bytes,
            first_seen_at: self.first_seen_at.clone(),
            updated_at: self.updated_at.clone(),
            submitted_at: clone_optional(&self.submitted_at),
            completed_at: clone_optional(&self.completed_at),
            ignored_at: clone_optional(&self.ignored_at),
            last_error: clone_optional(&self.last_error),
        }
    }
}

/// The contents of several items.
pub open spec fn items_view(items: Seq<FeedItem>) -> Seq<ItemView> {
    Seq::new(items.len(), |i: int| items[i]@)
}

/// All that is written to the state file.
#[derive(Debug)]
pub struct AppState {
    pub version: u32,
    pub config: AppConfig,
    pub items: Vec<FeedItem>,
}

/// The contents of an `AppState`.
pub struct StateView {
    pub version: u32,
    pub config: ConfigView,
    pub items: Seq<ItemView>,
}

impl View for AppState {
    type V = StateView;

    open spec fn view(&self) -> StateView {
        StateView {
            version: self.version,
            config: self.config@,
            items: items_view(self.items@),
        }
    }
}

impl Default for AppState {
    fn default() -> (r: Self)
        ensures
            r@ == (StateView {
                version: 1,
                config: default_config(),
                items: Seq::empty(),
            }),
    {
        let state = AppState {
            version: default_version(),
            config: AppConfig::default(),
            items: Vec::new(),
        };
        assert(items_view(state.items@) =~= Seq::empty());
        state
    }
}

/// An item as the feed gives it.
#[derive(Debug)]
pub struct ParsedRssItem {
    pub title: String,
    pub link: String,
    pub guid: String,
    pub pub_date: String,
    pub total_bytes: Option<u64>,
    pub enclosure_url: String,
    pub unique_key: String,
}

/// The contents of a `ParsedRssItem`.
pub struct ParsedView {
    pub title: Seq<char>,
    pub link: Seq<char>,
    pub guid: Seq<char>,
    pub pub_date: Seq<char>,
    pub total_bytes: Option<u64>,
    pub enclosure_url: Seq<char>,
    pub unique_key: Seq<char>,
}

impl View for ParsedRssItem {
    type V = ParsedView;

    open spec fn view(&self) -> ParsedView {
        ParsedView {
            title: self.title@,
            link: self.link@,
            guid: self.guid@,
            pub_date: self.pub_date@,
            total_bytes: self.total_bytes,
            enclosure_url: self.enclosure_url@,
            unique_key: self.unique_key@,
        }
    }
}

/// The contents of several parsed items.
pub open spec fn parsed_view(items: Seq<ParsedRssItem>) -> Seq<ParsedView> {
    Seq::new(items.len(), |i: int| items[i]@)
}

/// A task as BitComet reports it.
#[derive(Debug)]
pub struct BitCometTask {
    pub task_id: String,
    pub info_hash: String,
    pub finish_date: String,
    pub left: Option<u64>,
    /// The bits of the percentage, as a double-precision number.
    pub progress_percent: Option<u64>,
    pub completed: Option<bool>,
    pub status: String,
    pub save_name: String,
    pub show_name: String,
    pub save_location: String,
}

/// The contents of a `BitCometTask`.
pub struct TaskView {
    pub task_id: Seq<char>,
    pub info_hash: Seq<char>,
    pub finish_date: Seq<char>,
    pub left: Option<u64>,
    pub progress_percent: Option<u64>,
    pub completed: Option<bool>,
    pub status: Seq<char>,
    pub save_name: Seq<char>,
    pub show_name: Seq<char>,
    pub save_location: Seq<char>,
}

impl View for BitCometTask {
    type V = TaskView;

    open spec fn view(&self) -> TaskView {
        TaskView {
            task_id: self.task_id@,
            info_hash: self.info_hash@,
            finish_date: self.finish_date@,
            left: self.left,
            progress_percent: self.progress_percent,
            completed: self.completed,
            status: self.status@,
            save_name: self.save_name@,
            show_name: self.show_name@,
            save_location: self.save_location@,
        }
    }
}

impl Clone for BitCometTask {
    fn clone(&self) -> (r: Self)
        ensures
            r == *self,
    {
        BitCometTask {
            task_id: self.task_id.clone(),
            info_hash: self.info_hash.clone(),
            finish_date: self.finish_date.clone(),
            left: self.left,
            progress_percent: self.progress_percent,
            completed: self.completed,
            status: self.status.clone(),
            save_name: self.save_name.clone(),
            show_name: self.show_name.clone(),
            save_location: self.save_location.clone(),
        }
    }
}

/// The contents of several tasks.
pub open spec fn tasks_view(tasks: Seq<BitCometTask>) -> Seq<TaskView> {
    Seq::new(tasks.len(), |i: int| tasks[i]@)
}

} // verus!
