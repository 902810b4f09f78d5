//! The configuration: what is wrong with it, how it is changed, and what the
//! service says of itself.

use vstd::prelude::*;
use vstd::string::*;

use crate::bitcomet::control::TaskSnapshot;
use crate::bitcomet::executable::{
    is_executable, names_bitcomet, version, version_fault, version_of, version_requirement_error,
    Executable,
};
use crate::clock::Moment;
use crate::models::{AppConfig, ConfigPatch, ConfigView};
use crate::outside::{replaced_of, same_text, scheme_of, secret_pattern, url_scheme};
use crate::service::state::{
    schedule_soon, scheduled, scheduled_soon, update_schedule, InnerView, Service,
};
use crate::text::{clone_optional, joined, optional, outcome, texts, trim, trimmed};
use crate::util::{mask_url, PathFacts};

verus! {

/// What the file system says of the paths in a configuration.
#[derive(Debug)]
pub struct ConfigFacts {
    pub download_dir: PathFacts,
    pub executable: Executable,
}

/// Whether a URL with a scheme is one of the web.
pub open spec fn is_web(scheme: Option<Seq<char>>) -> bool {
    scheme == Some("http"@) || scheme == Some("https"@)
}

/// What is wrong with the URL of a feed.
pub open spec fn url_faults(url: Seq<char>, scheme: Option<Seq<char>>, required: bool) -> Seq<
    Seq<char>,
> {
    if url.len() == 0 {
        if required {
            seq!["RSS 地址不能为空"@]
        } else {
            Seq::empty()
        }
    } else if !is_web(scheme) {
        seq!["RSS 地址必须是 http:// 或 https:// URL"@]
    } else {
        Seq::empty()
    }
}

/// What is wrong with the folder that is downloaded to.
pub open spec fn folder_faults(folder: Seq<char>, facts: PathFacts, required: bool) -> Seq<
    Seq<char>,
> {
    if folder.len() == 0 {
        if required {
            seq!["下载目录不能为空"@]
        } else {
            Seq::empty()
        }
    } else if !facts.is_dir {
        seq!["下载目录不存在或不是文件夹"@]
    } else {
        Seq::empty()
    }
}

/// What is wrong with the executable.
pub open spec fn executable_faults(path: Seq<char>, file: Executable, required: bool) -> Seq<
    Seq<char>,
> {
    if path.len() == 0 {
        if required {
            seq!["BitComet 路径不能为空"@]
        } else {
            Seq::empty()
        }
    } else if !names_bitcomet(file.facts) {
        seq!["BitComet 路径必须指向 BitComet.exe 或 BitComet_x64.exe"@]
    } else {
        match version_fault(file) {
            Some(fault) => seq![fault],
            None => Seq::empty(),
        }
    }
}

/// What is wrong with the interval between two polls.
pub open spec fn interval_faults(minutes: u64) -> Seq<Seq<char>> {
    if 1 <= minutes <= 1440 {
        Seq::empty()
    } else {
        seq!["轮询间隔必须是 1 到 1440 之间的整数分钟"@]
    }
}

/// All that is wrong with a configuration. One that is used has to be
/// complete; one that is kept need not be.
pub open spec fn faults_of(
    config: ConfigView,
    facts: ConfigFacts,
    scheme: Option<Seq<char>>,
    required: bool,
) -> Seq<Seq<char>> {
    url_faults(config.rss_url, scheme, required) + folder_faults(
        config.download_dir,
        facts.download_dir,
        required,
    ) + executable_faults(config.bitcomet_exe, facts.executable, required) + interval_faults(
        config.poll_interval_minutes,
    )
}

/// Faults, with a semicolon between any two.
pub open spec fn faults_text(faults: Seq<Seq<char>>) -> Seq<char>
    decreases faults.len(),
{
    if faults.len() == 0 {
        Seq::empty()
    } else if faults.len() == 1 {
        faults[0]
    } else {
        faults_text(faults.drop_last()) + "；"@ + faults.last()
    }
}

/// Why a configuration is refused.
pub open spec fn refusal_of(faults: Seq<Seq<char>>) -> Option<Seq<char>> {
    if faults.len() == 0 {
        None
    } else {
        Some("配置不可用："@ + faults_text(faults))
    }
}

/// What a check finds wrong, if anything.
pub open spec fn refusal(r: Result<(), String>) -> Option<Seq<char>> {
    match r {
        Ok(()) => None,
        Err(message) => Some(message@),
    }
}

fn push_fault(faults: &mut Vec<String>, fault: String)
    ensures
        texts(final(faults)@) == texts(old(faults)@).push(fault@),
{
    let ghost before = faults@;
    faults.push(fault);
    assert(texts(faults@) =~= texts(before).push(fault@));
}

fn join_faults(faults: &Vec<String>) -> (r: String)
    ensures
        r@ == faults_text(texts(faults@)),
{
    let ghost all = texts(faults@);
    let mut text = String::new();
    let mut i: usize = 0;
    while i < faults.len()
        invariant
            i <= faults@.len(),
            all == texts(faults@),
            text@ == faults_text(all.take(i as int)),
        decreases faults@.len() - i,
    {
        assert(all.take(i + 1).drop_last() =~= all.take(i as int));
        if i > 0 {
            text.append("；");
            text.append(&faults[i]);
        } else {
            text = faults[i].clone();
        }
        i += 1;
    }
    assert(all.take(i as int) =~= all);
    text
}

/// Checks a configuration, given the scheme of the URL of the feed.
pub fn check_config(
    config: &AppConfig,
    facts: &ConfigFacts,
    scheme: &Option<String>,
    required: bool,
) -> (r: Result<(), String>)
    ensures
        refusal(r) == refusal_of(faults_of(config@, *facts, optional(*scheme), required)),
{
    let mut faults: Vec<String> = Vec::new();
    assert(texts(faults@) =~= Seq::empty());
    if config.rss_url.as_str().is_empty() {
        if required {
            push_fault(&mut faults, "RSS 地址不能为空".to_string());
        }
    } else {
        let web = match scheme {
            Some(scheme) => same_text(scheme, "http") || same_text(scheme, "https"),
            None => false,
        };
        if !web {
            push_fault(&mut faults, "RSS 地址必须是 http:// 或 https:// URL".to_string());
        }
    }
    let ghost first = url_faults(config@.rss_url, optional(*scheme), required);
    assert(texts(faults@) =~= first);
    if config.download_dir.as_str().is_empty() {
        if required {
            push_fault(&mut faults, "下载目录不能为空".to_string());
        }
    } else if !facts.download_dir.is_dir {
        push_fault(&mut faults, "下载目录不存在或不是文件夹".to_string());
    }
    let ghost second = folder_faults(config@.download_dir, facts.download_dir, required);
    assert(texts(faults@) =~= first + second);
    if config.bitcomet_exe.as_str().is_empty() {
        if required {
            push_fault(&mut faults, "BitComet 路径不能为空".to_string());
        }
    } else if !is_executable(&facts.executable.facts) {
        push_fault(
            &mut faults,
            "BitComet 路径必须指向 BitComet.exe 或 BitComet_x64.exe".to_string(),
        );
    } else if let Some(fault) = version_requirement_error(&facts.executable) {
        push_fault(&mut faults, fault);
    }
    let ghost third = executable_faults(config@.bitcomet_exe, facts.executable, required);
    assert(texts(faults@) =~= first + second + third);
    if config.poll_interval_minutes < 1 || config.poll_interval_minutes > 1440 {
        push_fault(&mut faults, "轮询间隔必须是 1 到 1440 之间的整数分钟".to_string());
    }
    assert(texts(faults@) =~= faults_of(config@, *facts, optional(*scheme), required));
    if faults.len() == 0 {
        Ok(())
    } else {
        Err(joined("配置不可用：", &join_faults(&faults)))
    }
}

/// Checks a configuration that is to be used: it has to be complete.
pub fn validate_config(config: &AppConfig, facts: &ConfigFacts) -> (r: Result<(), String>)
    ensures
        refusal(r) == refusal_of(faults_of(config@, *facts, scheme_of(config@.rss_url), true)),
{
    check_config(config, facts, &url_scheme(&config.rss_url), true)
}

/// Checks a configuration that is to be kept: what is not set is not wrong.
pub fn validate_config_fields(config: &AppConfig, facts: &ConfigFacts) -> (r: Result<(), String>)
    ensures
        refusal(r) == refusal_of(faults_of(config@, *facts, scheme_of(config@.rss_url), false)),
{
    check_config(config, facts, &url_scheme(&config.rss_url), false)
}

/// A configuration that may be used may also be kept.
pub proof fn law_usable_config_may_be_kept(
    config: ConfigView,
    facts: ConfigFacts,
    scheme: Option<Seq<char>>,
)
    requires
        refusal_of(faults_of(config, facts, scheme, true)) is None,
    ensures
        refusal_of(faults_of(config, facts, scheme, false)) is None,
{
    let all = faults_of(config, facts, scheme, true);
    assert(url_faults(config.rss_url, scheme, true).len() == 0);
    assert(folder_faults(config.download_dir, facts.download_dir, true).len() == 0);
    assert(executable_faults(config.bitcomet_exe, facts.executable, true).len() == 0);
}

/// A text in place of another, without the white space around it, where there
/// is one.
pub open spec fn replaced_text(value: Option<String>, kept: Seq<char>) -> Seq<char> {
    match value {
        Some(value) => trimmed(value@),
        None => kept,
    }
}

/// A configuration with what a patch changes. Numbers are brought within
/// their bounds, and the address that is listened on is always the same.
pub open spec fn patched(config: ConfigView, patch: ConfigPatch) -> ConfigView {
    ConfigView {
        rss_url: replaced_text(patch.rss_url, config.rss_url),
        download_dir: replaced_text(patch.download_dir, config.download_dir),
        bitcomet_exe: replaced_text(patch.bitcomet_exe, config.bitcomet_exe),
        poll_interval_minutes: match patch.poll_interval_minutes {
            Some(minutes) => if minutes < 0 {
                0
            } else {
                minutes as u64
            },
            None => config.poll_interval_minutes,
        },
        port: match patch.port {
            Some(port) => if port < 1024 {
                1024
            } else if port > 65535 {
                65535
            } else {
                port as u16
            },
            None => config.port,
        },
        bind_host: "127.0.0.1"@,
        auto_download_enabled: config.auto_download_enabled,
        proxy_mode: match patch.proxy_mode {
            Some(mode) => mode,
            None => config.proxy_mode,
        },
    }
}

fn replace_text(value: Option<String>, kept: &String) -> (r: String)
    ensures
        r@ == replaced_text(value, kept@),
{
    match value {
        Some(value) => trim(&value),
        None => kept.clone(),
    }
}

/// A configuration with what a patch changes.
pub fn patch_config(config: &AppConfig, patch: ConfigPatch) -> (r: AppConfig)
    ensures
        r@ == patched(config@, patch),
{
    AppConfig {
        rss_url: replace_text(patch.rss_url, &config.rss_url),
        download_dir: replace_text(patch.download_dir, &config.download_dir),
        bitcomet_exe: replace_text(patch.bitcomet_exe, &config.bitcomet_exe),
        poll_interval_minutes: match patch.poll_interval_minutes {
            Some(minutes) => if minutes < 0 {
                0
            } else {
                minutes as u64
            },
            None => config.poll_interval_minutes,
        },
        port: match patch.port {
            Some(port) => if port < 1024 {
                1024
            } else if port > 65535 {
                65535
            } else {
                port as u16
            },
            None => config.port,
        },
        bind_host: "127.0.0.1".to_string(),
        auto_download_enabled: config.auto_download_enabled,
        proxy_mode: match patch.proxy_mode {
            Some(mode) => mode,
            None => config.proxy_mode,
        },
    }
}

/// A patch that changes nothing leaves a configuration as it is, once its
/// address is the one that is always used.
pub proof fn law_empty_patch_changes_nothing(config: ConfigView, patch: ConfigPatch)
    requires
        patch.rss_url is None,
        patch.download_dir is None,
        patch.bitcomet_exe is None,
        patch.poll_interval_minutes is None,
        patch.port is None,
        patch.proxy_mode is None,
    ensures
        patched(config, patch) == (ConfigView { bind_host: "127.0.0.1"@, ..config }),
{
}

/// A change of the configuration that is under way.
#[derive(Debug)]
pub struct ConfigUpdate {
    pub previous: AppConfig,
    pub candidate: AppConfig,
}

/// What comes of switching automatic downloads on or off at a time: what is
/// told, or why it is refused, and what the service keeps then.
pub open spec fn switched(inner: InnerView, enabled: bool, facts: ConfigFacts, now: int) -> (
    Result<Seq<char>, Seq<char>>,
    InnerView,
) {
    let config = inner.state.config;
    let fault = refusal_of(faults_of(config, facts, scheme_of(config.rss_url), true));
    let changed = inner.with_config(ConfigView { auto_download_enabled: enabled, ..config });
    if enabled && fault is Some {
        (Err(fault->Some_0), inner)
    } else if enabled {
        (Ok("Automatic downloads enabled"@), scheduled_soon(changed, now))
    } else {
        (Ok("Automatic downloads paused"@), InnerView { next_poll_at: None, ..changed })
    }
}

/// What comes of trying to save a change of the configuration.
pub open spec fn config_kept(
    inner: InnerView,
    previous: ConfigView,
    saved: Result<(), String>,
    now: int,
) -> (Option<Seq<char>>, InnerView) {
    match saved {
        Ok(()) => (None, scheduled(inner, now)),
        Err(error) => (Some("配置写入失败："@ + error@), inner.with_config(previous)),
    }
}

/// What comes of taking note of an executable that was detected: what is told,
/// if it is used from now on, and what the service keeps then.
pub open spec fn detected(inner: InnerView, path: Seq<char>) -> (Option<Seq<char>>, InnerView) {
    let noted = InnerView { detected_bitcomet: path, ..inner };
    let config = noted.state.config;
    if config.bitcomet_exe.len() == 0 && path.len() > 0 {
        (
            Some("Detected BitComet at "@ + path),
            noted.with_config(ConfigView { bitcomet_exe: path, ..config }),
        )
    } else {
        (None, noted)
    }
}

/// What comes of reading back a configuration that was saved: what is wrong, if
/// anything, and what the service keeps then.
pub open spec fn confirmed(
    inner: InnerView,
    previous: ConfigView,
    candidate: ConfigView,
    persisted: Result<AppConfig, String>,
) -> (Option<Seq<char>>, InnerView) {
    match persisted {
        Err(error) => (Some("配置写入后无法重新读取："@ + error@), inner),
        Ok(config) => if config@ == candidate {
            (None, inner)
        } else {
            (
                Some("配置写入校验失败：磁盘内容与保存内容不一致"@),
                inner.with_config(previous),
            )
        },
    }
}

impl Service {
    /// Begins a change of the configuration. A configuration that may not be
    /// kept is refused, and all is as it was; else the new one takes effect,
    /// and is to be saved.
    pub fn update_config(&mut self, candidate: AppConfig, facts: &ConfigFacts) -> (r: Result<
        ConfigUpdate,
        String,
    >)
        ensures
            final(self).same_place(*old(self)),
            ({
                let fault = refusal_of(
                    faults_of(candidate@, *facts, scheme_of(candidate@.rss_url), false),
                );
                match r {
                    Ok(update) => {
                        &&& fault is None
                        &&& update.previous@ == old(self).inner@.state.config
                        &&& update.candidate@ == candidate@
                        &&& final(self).inner@ == old(self).inner@.with_config(candidate@)
                    },
                    Err(message) => fault == Some(message@) && final(self).inner@ == old(self).inner@,
                }
            }),
    {
        match validate_config_fields(&candidate, facts) {
            Err(message) => Err(message),
            Ok(()) => {
                let previous = self.inner.state.config.clone();
                self.inner.state.config = candidate.clone();
                Ok(ConfigUpdate { previous, candidate })
            },
        }
    }

    /// Goes on with a change of the configuration once saving was tried. Where
    /// that failed, the previous configuration is back.
    pub fn config_saved(
        &mut self,
        update: &ConfigUpdate,
        saved: &Result<(), String>,
        now: &Moment,
    ) -> (r: Result<(), String>)
        ensures
            final(self).same_place(*old(self)),
            (refusal(r), final(self).inner@) == config_kept(
                old(self).inner@,
                update.previous@,
                *saved,
                now.at(),
            ),
    {
        match saved {
            Err(error) => {
                self.inner.state.config = update.previous.clone();
                Err(joined("配置写入失败：", error))
            },
            Ok(()) => {
                update_schedule(&mut self.inner, now);
                Ok(())
            },
        }
    }

    /// Ends a change of the configuration, given what the state file holds
    /// now. Where that is another configuration, the previous one is back.
    pub fn confirm_config(&mut self, update: &ConfigUpdate, persisted: &Result<AppConfig, String>)
        -> (r: Result<(), String>)
        ensures
            final(self).same_place(*old(self)),
            (refusal(r), final(self).inner@) == confirmed(
                old(self).inner@,
                update.previous@,
                update.candidate@,
                *persisted,
            ),
            match *persisted {
                Err(error) => refusal(r) == Some("配置写入后无法重新读取："@ + error@)
                    && final(self).inner@ == old(self).inner@,
                Ok(config) => if config@ == update.candidate@ {
                    r is Ok && final(self).inner@ == old(self).inner@
                } else {
                    refusal(r) == Some("配置写入校验失败：磁盘内容与保存内容不一致"@) && final(self).inner@ == old(self).inner@.with_config(update.previous@)
                },
            },
    {
        match persisted {
            Err(error) => Err(joined("配置写入后无法重新读取：", error)),
            Ok(config) => if config.same_as(&update.candidate) {
                Ok(())
            } else {
                self.inner.state.config = update.previous.clone();
                Err("配置写入校验失败：磁盘内容与保存内容不一致".to_string())
            },
        }
    }

    /// Switches automatic downloads on or off, and says so. They are not
    /// switched on with a configuration that cannot be used.
    pub fn set_auto_download(&mut self, enabled: bool, facts: &ConfigFacts, now: &Moment) -> (r:
        Result<String, String>)
        ensures
            final(self).same_place(*old(self)),
            (outcome(r), final(self).inner@) == switched(
                old(self).inner@,
                enabled,
                *facts,
                now.at(),
            ),
    {
        if enabled {
            if let Err(message) = validate_config(&self.inner.state.config, facts) {
                return Err(message);
            }
        }
        self.inner.state.config.auto_download_enabled = enabled;
        if enabled {
            schedule_soon(&mut self.inner, now);
            Ok("Automatic downloads enabled".to_string())
        } else {
            self.inner.next_poll_at = None;
            Ok("Automatic downloads paused".to_string())
        }
    }

    /// Takes note of which executable was detected. Where none is configured,
    /// it is used from now on, which is to be saved and told.
    pub fn refresh_bitcomet_detection(&mut self, detected: String) -> (r: Option<String>)
        ensures
            final(self).same_place(*old(self)),
            (optional(r), final(self).inner@) == self::detected(old(self).inner@, detected@),
            ({
                let noted = InnerView { detected_bitcomet: detected@, ..old(self).inner@ };
                let config = noted.state.config;
                if config.bitcomet_exe.len() == 0 && detected@.len() > 0 {
                    optional(r) == Some("Detected BitComet at "@ + detected@) && final(self).inner@
                        == noted.with_config(ConfigView { bitcomet_exe: detected@, ..config })
                } else {
                    r is None && final(self).inner@ == noted
                }
            }),
    {
        let adopted = self.inner.state.config.bitcomet_exe.as_str().is_empty()
            && !detected.as_str().is_empty();
        let message = joined("Detected BitComet at ", &detected);
        if adopted {
            self.inner.state.config.bitcomet_exe = detected.clone();
        }
        self.inner.detected_bitcomet = detected;
        if adopted {
            Some(message)
        } else {
            None
        }
    }

    /// Takes note of what a snapshot of the tasks says of BitComet.
    pub fn update_bitcomet_status(&mut self, snapshot: &TaskSnapshot)
        ensures
            final(self).same_place(*old(self)),
            final(self).inner@ == (InnerView {
                bitcomet_version: snapshot@.version,
                bitcomet_realtime: snapshot@.realtime,
                bitcomet_realtime_error: snapshot@.error,
                ..old(self).inner@
            }),
    {
        self.inner.bitcomet_version = clone_optional(&snapshot.version);
        self.inner.bitcomet_realtime = snapshot.realtime;
        self.inner.bitcomet_realtime_error = clone_optional(&snapshot.error);
    }

    /// The executable that is used: the one that is configured, else the one
    /// that was detected.
    pub fn bitcomet_path(&self) -> (r: String)
        ensures
            r@ == used_path(self.inner@),
    {
        if self.inner.state.config.bitcomet_exe.as_str().is_empty() {
            self.inner.detected_bitcomet.clone()
        } else {
            self.inner.state.config.bitcomet_exe.clone()
        }
    }

    /// What the service says of itself, given what is found out for it.
    pub fn status_value(
        &self,
        file: &Executable,
        download_dir_ready: bool,
        startup_enabled: bool,
        logs: Vec<String>,
    ) -> (r: Status)
        ensures
            r@ == status_of(*self, *file, download_dir_ready, startup_enabled, texts(logs@)),
    {
        let inner = &self.inner;
        Status {
            started_at: inner.started_at.clone(),
            preferred_port: inner.state.config.port,
            next_poll_at: clone_optional(&inner.next_poll_at),
            polling: inner.polling,
            last_poll_at: clone_optional(&inner.last_poll_at),
            last_poll_error: clone_optional(&inner.last_poll_error),
            auto_download_enabled: inner.state.config.auto_download_enabled,
            data_dir: self.data_dir.clone(),
            app_dir: self.app_dir.clone(),
            bitcomet_detected_path: inner.detected_bitcomet.clone(),
            bitcomet_configured: is_executable(&file.facts),
            bitcomet_version: match &inner.bitcomet_version {
                Some(version) => Some(version.clone()),
                None => version(file),
            },
            bitcomet_realtime: inner.bitcomet_realtime,
            bitcomet_realtime_error: clone_optional(&inner.bitcomet_realtime_error),
            download_dir_ready,
            startup_enabled,
            logs,
        }
    }

    /// The configuration as it is shown, with the secrets in the URL of the
    /// feed hidden beside it.
    pub fn config_value(&self, marked_portable: bool) -> (r: ConfigReport)
        ensures
            r.config@ == self.inner@.state.config,
            r.rss_url_masked@ == replaced_of(
                secret_pattern(),
                self.inner@.state.config.rss_url,
                "$1***"@,
            ),
            r.data_file_path@ == self.state_file@,
            r.portable_mode == marked_portable,
    {
        ConfigReport {
            config: self.inner.state.config.clone(),
            rss_url_masked: mask_url(&self.inner.state.config.rss_url),
            data_file_path: self.state_file.clone(),
            portable_mode: marked_portable,
        }
    }
}

/// The path of the executable that is used.
pub open spec fn used_path(inner: InnerView) -> Seq<char> {
    if inner.state.config.bitcomet_exe.len() == 0 {
        inner.detected_bitcomet
    } else {
        inner.state.config.bitcomet_exe
    }
}

/// The configuration as it is shown.
#[derive(Debug)]
pub struct ConfigReport {
    pub config: AppConfig,
    pub rss_url_masked: String,
    pub data_file_path: String,
    pub portable_mode: bool,
}

/// What the service says of itself.
#[derive(Debug)]
pub struct Status {
    pub started_at: String,
    pub preferred_port: u16,
    pub next_poll_at: Option<String>,
    pub polling: bool,
    pub last_poll_at: Option<String>,
    pub last_poll_error: Option<String>,
    pub auto_download_enabled: bool,
    pub data_dir: String,
    pub app_dir: String,
    pub bitcomet_detected_path: String,
    pub bitcomet_configured: bool,
    pub bitcomet_version: Option<String>,
    pub bitcomet_realtime: bool,
    pub bitcomet_realtime_error: Option<String>,
    pub download_dir_ready: bool,
    pub startup_enabled: bool,
    pub logs: Vec<String>,
}

/// The contents of a `Status`.
pub struct StatusView {
    pub started_at: Seq<char>,
    pub preferred_port: u16,
    pub next_poll_at: Option<Seq<char>>,
    pub polling: bool,
    pub last_poll_at: Option<Seq<char>>,
    pub last_poll_error: Option<Seq<char>>,
    pub auto_download_enabled: bool,
    pub data_dir: Seq<char>,
    pub app_dir: Seq<char>,
    pub bitcomet_detected_path: Seq<char>,
    pub bitcomet_configured: bool,
    pub bitcomet_version: Option<Seq<char>>,
    pub bitcomet_realtime: bool,
    pub bitcomet_realtime_error: Option<Seq<char>>,
    pub download_dir_ready: bool,
    pub startup_enabled: bool,
    pub logs: Seq<Seq<char>>,
}

impl View for Status {
    type V = StatusView;

    open spec fn view(&self) -> StatusView {
        StatusView {
            started_at: self.started_at@,
            preferred_port: self.preferred_port,
            next_poll_at: optional(self.next_poll_at),
            polling: self.polling,
            last_poll_at: optional(self.last_poll_at),
            last_poll_error: optional(self.last_poll_error),
            auto_download_enabled: self.auto_download_enabled,
            data_dir: self.data_dir@,
            app_dir: self.app_dir@,
            bitcomet_detected_path: self.bitcomet_detected_path@,
            bitcomet_configured: self.bitcomet_configured,
            bitcomet_version: optional(self.bitcomet_version),
            bitcomet_realtime: self.bitcomet_realtime,
            bitcomet_realtime_error: optional(self.bitcomet_realtime_error),
            download_dir_ready: self.download_dir_ready,
            startup_enabled: self.startup_enabled,
            logs: texts(self.logs@),
        }
    }
}

/// What a service says of itself.
pub open spec fn status_of(
    service: Service,
    file: Executable,
    download_dir_ready: bool,
    startup_enabled: bool,
    logs: Seq<Seq<char>>,
) -> StatusView {
    let inner = service.inner@;
    StatusView {
        started_at: inner.started_at,
        preferred_port: inner.state.config.port,
        next_poll_at: inner.next_poll_at,
        polling: inner.polling,
        last_poll_at: inner.last_poll_at,
        last_poll_error: inner.last_poll_error,
        auto_download_enabled: inner.state.config.auto_download_enabled,
        data_dir: service.data_dir@,
        app_dir: service.app_dir@,
        bitcomet_detected_path: inner.detected_bitcomet,
        bitcomet_configured: names_bitcomet(file.facts),
        bitcomet_version: match inner.bitcomet_version {
            Some(version) => Some(version),
            None => version_of(file),
        },
        bitcomet_realtime: inner.bitcomet_realtime,
        bitcomet_realtime_error: inner.bitcomet_realtime_error,
        download_dir_ready,
        startup_enabled,
        logs,
    }
}

/// What is found out of a path that may lead to the executable.
#[derive(Debug)]
pub struct Inspection {
    pub path: String,
    pub valid: bool,
    pub version: Option<String>,
    pub supported: bool,
    pub error: Option<String>,
}

/// What is wrong with a path that is to lead to the executable.
pub open spec fn inspection_fault(path: Seq<char>, file: Executable) -> Option<Seq<char>> {
    if path.len() == 0 {
        Some("BitComet 路径不能为空"@)
    } else if !names_bitcomet(file.facts) {
        Some("路径必须指向 BitComet.exe 或 BitComet_x64.exe"@)
    } else {
        version_fault(file)
    }
}

/// Says what is found out of a path that may lead to the executable.
pub fn inspect_bitcomet(path: &str, file: &Executable) -> (r: Inspection)
    ensures
        r.path@ == trimmed(path@),
        r.valid == names_bitcomet(file.facts),
        optional(r.version) == version_of(*file),
        optional(r.error) == inspection_fault(trimmed(path@), *file),
        r.supported == (r.valid && r.error is None),
{
    let path = trim(path);
    let valid = is_executable(&file.facts);
    let version = if valid {
        version(file)
    } else {
        None
    };
    let error = if path.as_str().is_empty() {
        Some("BitComet 路径不能为空".to_string())
    } else if !valid {
        Some("路径必须指向 BitComet.exe 或 BitComet_x64.exe".to_string())
    } else {
        version_requirement_error(file)
    };
    let supported = valid && error.is_none();
    Inspection { path, valid, version, supported, error }
}

/// A change of the configuration that could not be saved leaves the service
/// as it was before the change was begun.
pub proof fn law_failed_save_restores_config(
    before: InnerView,
    candidate: ConfigView,
    error: String,
    now: int,
)
    ensures
        config_kept(
            before.with_config(candidate),
            before.state.config,
            Err(error),
            now,
        ).1 == before,
{
}

/// Automatic downloads that are refused leave all as it was, and those that
/// are switched off leave no poll behind.
pub proof fn law_switching_automation(
    inner: InnerView,
    enabled: bool,
    facts: ConfigFacts,
    now: int,
)
    ensures
        switched(inner, enabled, facts, now).0 is Err ==> switched(
            inner,
            enabled,
            facts,
            now,
        ).1 == inner,
        !enabled ==> switched(inner, enabled, facts, now).0 is Ok && switched(
            inner,
            enabled,
            facts,
            now,
        ).1.next_poll_at is None,
        switched(inner, enabled, facts, now).0 is Ok ==> switched(
            inner,
            enabled,
            facts,
            now,
        ).1.state.config.auto_download_enabled == enabled,
{
}

} // verus!
