//! The state of the service, and when it polls the feed.

use vstd::prelude::*;
use vstd::string::*;

use crate::clock::Moment;
use crate::models::{
    items_view, AppConfig, AppState, ConfigView, FeedItem, ItemView, StateView,
};
use crate::outside::{
    parse_rfc3339, rfc3339_of, rfc3339_text, rfc3339_text_of, same_text, FIVE_DIGIT_YEARS,
    LAST_MILLIS,
};
use crate::text::optional;

verus! {

/// What the service keeps while it runs.
#[derive(Debug)]
pub struct Inner {
    pub state: AppState,
    pub started_at: String,
    pub next_poll_at: Option<String>,
    pub polling: bool,
    pub last_poll_at: Option<String>,
    pub last_poll_error: Option<String>,
    pub detected_bitcomet: String,
    pub bitcomet_version: Option<String>,
    pub bitcomet_realtime: bool,
    pub bitcomet_realtime_error: Option<String>,
}

/// The contents of an `Inner`.
pub struct InnerView {
    pub state: StateView,
    pub started_at: Seq<char>,
    pub next_poll_at: Option<Seq<char>>,
    pub polling: bool,
    pub last_poll_at: Option<Seq<char>>,
    pub last_poll_error: Option<Seq<char>>,
    pub detected_bitcomet: Seq<char>,
    pub bitcomet_version: Option<Seq<char>>,
    pub bitcomet_realtime: bool,
    pub bitcomet_realtime_error: Option<Seq<char>>,
}

impl View for Inner {
    type V = InnerView;

    open spec fn view(&self) -> InnerView {
        InnerView {
            state: self.state@,
            started_at: self.started_at@,
            next_poll_at: optional(self.next_poll_at),
            polling: self.polling,
            last_poll_at: optional(self.last_poll_at),
            last_poll_error: optional(self.last_poll_error),
            detected_bitcomet: self.detected_bitcomet@,
            bitcomet_version: optional(self.bitcomet_version),
            bitcomet_realtime: self.bitcomet_realtime,
            bitcomet_realtime_error: optional(self.bitcomet_realtime_error),
        }
    }
}

impl InnerView {
    /// The same with another configuration.
    pub open spec fn with_config(self, config: ConfigView) -> InnerView {
        InnerView { state: StateView { config, ..self.state }, ..self }
    }

    /// The same with other items.
    pub open spec fn with_items(self, items: Seq<ItemView>) -> InnerView {
        InnerView { state: StateView { items, ..self.state }, ..self }
    }
}

/// The service.
#[derive(Debug)]
pub struct Service {
    pub app_dir: String,
    pub data_dir: String,
    pub state_file: String,
    pub log_file: String,
    pub executable: String,
    pub inner: Inner,
}

impl Service {
    /// Whether two services are in the same place.
    pub open spec fn same_place(self, other: Service) -> bool {
        &&& self.app_dir == other.app_dir
        &&& self.data_dir == other.data_dir
        &&& self.state_file == other.state_file
        &&& self.log_file == other.log_file
        &&& self.executable == other.executable
    }

    /// A service that starts at a point in time, with the state that was kept.
    pub fn new(
        app_dir: String,
        data_dir: String,
        state_file: String,
        log_file: String,
        executable: String,
        state: AppState,
        now: &Moment,
    ) -> (r: Service)
        ensures
            r.app_dir == app_dir,
            r.data_dir == data_dir,
            r.state_file == state_file,
            r.log_file == log_file,
            r.executable == executable,
            r.inner@ == (InnerView {
                state: state@,
                started_at: rfc3339_text_of(now.at()),
                next_poll_at: None,
                polling: false,
                last_poll_at: None,
                last_poll_error: None,
                detected_bitcomet: Seq::empty(),
                bitcomet_version: None,
                bitcomet_realtime: false,
                bitcomet_realtime_error: None,
            }),
    {
        Service {
            app_dir,
            data_dir,
            state_file,
            log_file,
            executable,
            inner: Inner {
                state,
                started_at: now.text(),
                next_poll_at: None,
                polling: false,
                last_poll_at: None,
                last_poll_error: None,
                detected_bitcomet: String::new(),
                bitcomet_version: None,
                bitcomet_realtime: false,
                bitcomet_realtime_error: None,
            },
        }
    }

    /// The configuration.
    pub fn config(&self) -> (r: AppConfig)
        ensures
            r@ == self.inner@.state.config,
    {
        self.inner.state.config.clone()
    }

    /// The folder that is downloaded to.
    pub fn download_dir(&self) -> (r: String)
        ensures
            r@ == self.inner@.state.config.download_dir,
    {
        self.inner.state.config.download_dir.clone()
    }
}

/// The milliseconds between two polls: the minutes that are set, but at least
/// one and at most a day.
pub open spec fn poll_millis(config: ConfigView) -> int {
    let minutes = if config.poll_interval_minutes < 1 {
        1
    } else if config.poll_interval_minutes > 1440 {
        1440
    } else {
        config.poll_interval_minutes as int
    };
    minutes * 60_000
}

/// The next poll a while after a time. There is none behind the end of the
/// calendar.
pub open spec fn poll_after(inner: InnerView, now: int, wait: int) -> InnerView {
    if now + wait <= LAST_MILLIS {
        InnerView { next_poll_at: Some(rfc3339_text_of(now + wait)), ..inner }
    } else {
        inner
    }
}

/// The next poll as it is due after a time: one interval later, or none where
/// nothing is downloaded automatically.
pub open spec fn scheduled(inner: InnerView, now: int) -> InnerView {
    if inner.state.config.auto_download_enabled {
        poll_after(inner, now, poll_millis(inner.state.config))
    } else {
        InnerView { next_poll_at: None, ..inner }
    }
}

/// The next poll a second after a time.
pub open spec fn scheduled_soon(inner: InnerView, now: int) -> InnerView {
    poll_after(inner, now, 1000)
}

/// Whether a poll is due at a time.
pub open spec fn is_due(next_poll_at: Option<Seq<char>>, now: int) -> bool {
    match next_poll_at {
        Some(text) => match rfc3339_of(text) {
            Some((seconds, nanos)) => seconds * 1_000_000_000 + nanos <= now * 1_000_000,
            None => false,
        },
        None => false,
    }
}

fn schedule_after(inner: &mut Inner, now: i64, wait: i64)
    requires
        0 <= now <= LAST_MILLIS,
        0 <= wait <= 86_400_000,
    ensures
        final(inner)@ == poll_after(old(inner)@, now as int, wait as int),
        now + wait < FIVE_DIGIT_YEARS ==> forall|later: int| #[trigger]
            is_due(final(inner)@.next_poll_at, later) <==> later >= now + wait,
{
    if now <= LAST_MILLIS - wait {
        inner.next_poll_at = Some(rfc3339_text(now + wait));
    }
}

/// Sets the next poll as it is due after a point in time. It is then due from
/// the end of the interval on, and not before.
pub fn update_schedule(inner: &mut Inner, now: &Moment)
    ensures
        final(inner)@ == scheduled(old(inner)@, now.at()),
        old(inner)@.state.config.auto_download_enabled && now.at() + poll_millis(
            old(inner)@.state.config,
        ) < FIVE_DIGIT_YEARS ==> forall|later: int| #[trigger]
            is_due(final(inner)@.next_poll_at, later) <==> later >= now.at() + poll_millis(
                old(inner)@.state.config,
            ),
        !old(inner)@.state.config.auto_download_enabled ==> forall|later: int|
            !#[trigger] is_due(final(inner)@.next_poll_at, later),
{
    if !inner.state.config.auto_download_enabled {
        inner.next_poll_at = None;
        return;
    }
    let minutes = inner.state.config.poll_interval_minutes;
    let minutes: i64 = if minutes < 1 {
        1
    } else if minutes > 1440 {
        1440
    } else {
        minutes as i64
    };
    schedule_after(inner, now.millis(), minutes * 60_000);
}

/// Sets the next poll a second after a point in time. It is then due from the
/// end of the second on, and not before.
pub fn schedule_soon(inner: &mut Inner, now: &Moment)
    ensures
        final(inner)@ == scheduled_soon(old(inner)@, now.at()),
        now.at() + 1000 < FIVE_DIGIT_YEARS ==> forall|later: int| #[trigger]
            is_due(final(inner)@.next_poll_at, later) <==> later >= now.at() + 1000,
{
    schedule_after(inner, now.millis(), 1000);
}

impl Service {
    /// Tells whether a poll is due at a point in time. Nothing is due where no
    /// poll is set.
    pub fn poll_due(&self, now: &Moment) -> (r: bool)
        ensures
            r == is_due(self.inner@.next_poll_at, now.at()),
    {
        match &self.inner.next_poll_at {
            Some(text) => match parse_rfc3339(text) {
                Some((seconds, nanos)) => {
                    seconds as i128 * 1_000_000_000 + nanos as i128 <= now.millis() as i128
                        * 1_000_000
                },
                None => false,
            },
            None => false,
        }
    }

    /// Whether the feed is polled right after the start.
    pub fn polls_at_start(&self) -> (r: bool)
        ensures
            r == (self.inner@.state.config.auto_download_enabled
                && self.inner@.state.config.rss_url.len() > 0),
    {
        self.inner.state.config.auto_download_enabled
            && !self.inner.state.config.rss_url.as_str().is_empty()
    }
}

/// What a save leaves behind: polling has ended, and a save that failed is
/// told as the last error.
pub open spec fn poll_ended(inner: InnerView, saved: Result<(), String>) -> InnerView {
    InnerView {
        polling: false,
        last_poll_error: match saved {
            Ok(()) => inner.last_poll_error,
            Err(error) => Some(error@),
        },
        ..inner
    }
}

/// Ends polling at a point in time, with how saving went.
pub fn finish_polling(inner: &mut Inner, saved: &Result<(), String>, now: &Moment)
    ensures
        final(inner)@ == scheduled(poll_ended(old(inner)@, *saved), now.at()),
{
    inner.polling = false;
    if let Err(error) = saved {
        inner.last_poll_error = Some(error.clone());
    }
    update_schedule(inner, now);
}

/// Polling always ends, whether saving went well or not, and the items are as
/// they were.
pub proof fn law_polling_always_ends(inner: InnerView, saved: Result<(), String>, now: int)
    ensures
        ({
            let after = scheduled(poll_ended(inner, saved), now);
            &&& !after.polling
            &&& after.state == inner.state
            &&& saved matches Err(error) ==> after.last_poll_error == Some(error@)
        }),
{
}

/// The first item with an identifier, from one on, or the number of items.
pub open spec fn find_item(items: Seq<ItemView>, id: Seq<char>, from: int) -> int
    decreases items.len() - from,
{
    if from < 0 || from >= items.len() {
        items.len() as int
    } else if items[from].id == id {
        from
    } else {
        find_item(items, id, from + 1)
    }
}

/// What is found has the identifier, and nothing before it has.
pub proof fn lemma_find_item(items: Seq<ItemView>, id: Seq<char>, from: int)
    requires
        0 <= from <= items.len(),
    ensures
        from <= find_item(items, id, from) <= items.len(),
        find_item(items, id, from) < items.len() ==> items[find_item(items, id, from)].id == id,
        forall|i: int| from <= i < find_item(items, id, from) ==> (#[trigger] items[i]).id != id,
    decreases items.len() - from,
{
    if from < items.len() && items[from].id != id {
        lemma_find_item(items, id, from + 1);
    }
}

/// Finds the first item with an identifier.
pub fn item_place(items: &Vec<FeedItem>, id: &str) -> (r: Option<usize>)
    ensures
        match r {
            Some(at) => at < items@.len() && find_item(items_view(items@), id@, 0) == at,
            None => find_item(items_view(items@), id@, 0) == items@.len(),
        },
{
    let mut i: usize = 0;
    while i < items.len()
        invariant
            i <= items@.len(),
            find_item(items_view(items@), id@, 0) == find_item(
                items_view(items@),
                id@,
                i as int,
            ),
        decreases items@.len() - i,
    {
        if same_text(&items[i].id, id) {
            return Some(i);
        }
        i += 1;
    }
    None
}

} // verus!
