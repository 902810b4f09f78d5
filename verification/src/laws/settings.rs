//! Which configurations are accepted, and what changing one comes to.

use vstd::prelude::*;
use vstd::string::*;

use crate::bitcomet::executable::{supported, version_fault, version_of, version_text, Executable};
use crate::laws::submission::{law_executable_is_told_by_its_name, leads_to_bitcomet};
use crate::models::{AppConfig, ConfigPatch, ConfigView, StateView};
use crate::number::decimal_text;
use crate::outside::{rfc3339_text_of, scheme_of, LAST_MILLIS};
use crate::service::settings::{
    config_kept, confirmed, detected, executable_faults, faults_of, faults_text, folder_faults,
    inspection_fault, interval_faults, patched, refusal_of, status_of, switched, url_faults,
    used_path, ConfigFacts,
};
use crate::service::state::{scheduled, InnerView, Service};
use crate::text::trimmed;

verus! {

/// Whether a file is the executable of BitComet in a version above 2.9.
pub open spec fn is_recent_bitcomet(file: Executable) -> bool {
    leads_to_bitcomet(file.facts) && (file.version matches Some(version) && (version.0 > 2 || (
    version.0 == 2 && version.1 >= 10)))
}

/// A file is supported if it is the executable in a version above 2.9. One that
/// is the executable in no such version is told so, with its version where that
/// can be read.
pub proof fn law_recent_versions_are_supported(file: Executable)
    ensures
        supported(file) <==> is_recent_bitcomet(file),
        !leads_to_bitcomet(file.facts) ==> version_of(file) is None && version_fault(file) is None,
        leads_to_bitcomet(file.facts) && file.version is None ==> version_of(file) is None
            && version_fault(file) == Some("无法读取 BitComet 版本，要求版本高于 2.09"@),
        leads_to_bitcomet(file.facts) && file.version is Some ==> version_of(file) == Some(
            version_text(file.version->Some_0),
        ),
        leads_to_bitcomet(file.facts) && file.version is Some && !is_recent_bitcomet(file)
            ==> version_fault(file) == Some(
            "BitComet 版本必须高于 2.09，当前版本为 "@ + version_text(file.version->Some_0),
        ),
        is_recent_bitcomet(file) ==> version_fault(file) is None,
{
    law_executable_is_told_by_its_name(file.facts);
}

/// A version is written as its first two numbers with a point between them, and
/// with the third where there is more to it.
pub proof fn law_versions_are_written_with_points(first: u16, second: u16, third: u16, fourth: u16)
    ensures
        version_text((first, second, 0, 0)) == decimal_text(first as nat) + "."@ + decimal_text(
            second as nat,
        ),
        third != 0 || fourth != 0 ==> version_text((first, second, third, fourth)) == version_text(
            (first, second, 0, 0),
        ) + "."@ + decimal_text(third as nat),
{
}

/// Whether the URL of a feed may be kept: it is not set, or is one of the web.
pub open spec fn is_url_fine(config: ConfigView) -> bool {
    config.rss_url.len() == 0 || scheme_of(config.rss_url) == Some("http"@) || scheme_of(
        config.rss_url,
    ) == Some("https"@)
}

/// A configuration may be kept if what is set in it is right: the URL one of
/// the web, the folder there, the executable recent, and the interval between
/// a minute and a day. It may be used if, besides, all of it is set.
pub proof fn law_right_configurations_are_accepted(
    config: ConfigView,
    facts: ConfigFacts,
    required: bool,
)
    ensures
        refusal_of(faults_of(config, facts, scheme_of(config.rss_url), required)) is None <==> ({
            &&& is_url_fine(config)
            &&& config.download_dir.len() == 0 || facts.download_dir.is_dir
            &&& config.bitcomet_exe.len() == 0 || is_recent_bitcomet(facts.executable)
            &&& 1 <= config.poll_interval_minutes <= 1440
            &&& required ==> config.rss_url.len() > 0 && config.download_dir.len() > 0
                && config.bitcomet_exe.len() > 0
        }),
{
    law_recent_versions_are_supported(facts.executable);
    law_executable_is_told_by_its_name(facts.executable.facts);
    let faults = faults_of(config, facts, scheme_of(config.rss_url), required);
    let first = url_faults(
        config.rss_url,
        scheme_of(config.rss_url),
        required,
    );
    let second = folder_faults(
        config.download_dir,
        facts.download_dir,
        required,
    );
    let third = executable_faults(
        config.bitcomet_exe,
        facts.executable,
        required,
    );
    let fourth = interval_faults(config.poll_interval_minutes);
    assert(faults.len() == first.len() + second.len() + third.len() + fourth.len());
}

/// The one thing that is wrong with a configuration is told in its own words:
/// what has to be set and is not, and what is set and is wrong.
pub proof fn law_what_is_wrong_is_told(config: ConfigView, facts: ConfigFacts, required: bool)
    requires
        facts.download_dir.is_dir,
        is_recent_bitcomet(facts.executable),
    ensures
        ({
            let told = refusal_of(faults_of(config, facts, scheme_of(config.rss_url), required));
            let set = config.download_dir.len() > 0 && config.bitcomet_exe.len() > 0;
            let timely = 1 <= config.poll_interval_minutes <= 1440;
            &&& set && timely && required && config.rss_url.len() == 0 ==> told == Some(
                "配置不可用："@ + "RSS 地址不能为空"@,
            )
            &&& set && timely && !is_url_fine(config) ==> told == Some(
                "配置不可用："@ + "RSS 地址必须是 http:// 或 https:// URL"@,
            )
            &&& set && !timely && is_url_fine(config) && config.rss_url.len() > 0 ==> told == Some(
                "配置不可用："@ + "轮询间隔必须是 1 到 1440 之间的整数分钟"@,
            )
            &&& timely && required && config.download_dir.len() == 0 && config.bitcomet_exe.len()
                > 0 && is_url_fine(config) && config.rss_url.len() > 0 ==> told == Some(
                "配置不可用："@ + "下载目录不能为空"@,
            )
            &&& timely && required && config.download_dir.len() > 0 && config.bitcomet_exe.len()
                == 0 && is_url_fine(config) && config.rss_url.len() > 0 ==> told == Some(
                "配置不可用："@ + "BitComet 路径不能为空"@,
            )
        }),
{
    law_recent_versions_are_supported(facts.executable);
    law_executable_is_told_by_its_name(facts.executable.facts);
}

/// A folder that is not there and a file that is not the executable are told.
pub proof fn law_wrong_paths_are_told(config: ConfigView, facts: ConfigFacts, required: bool)
    requires
        is_url_fine(config),
        config.rss_url.len() > 0,
        config.download_dir.len() > 0,
        config.bitcomet_exe.len() > 0,
        1 <= config.poll_interval_minutes <= 1440,
    ensures
        ({
            let told = refusal_of(faults_of(config, facts, scheme_of(config.rss_url), required));
            &&& !facts.download_dir.is_dir && is_recent_bitcomet(facts.executable) ==> told == Some(
                "配置不可用："@ + "下载目录不存在或不是文件夹"@,
            )
            &&& facts.download_dir.is_dir && !leads_to_bitcomet(facts.executable.facts) ==> told
                == Some("配置不可用："@ + "BitComet 路径必须指向 BitComet.exe 或 BitComet_x64.exe"@)
            &&& facts.download_dir.is_dir && leads_to_bitcomet(facts.executable.facts)
                && !is_recent_bitcomet(facts.executable) ==> told == Some(
                "配置不可用："@ + version_fault(facts.executable)->Some_0,
            )
        }),
{
    law_recent_versions_are_supported(facts.executable);
    law_executable_is_told_by_its_name(facts.executable.facts);
}

/// Several faults are told one behind the other, with a semicolon between.
pub proof fn law_faults_are_told_one_by_one(faults: Seq<Seq<char>>, fault: Seq<char>)
    ensures
        faults_text(seq![fault]) == fault,
        faults.len() > 0 ==> faults_text(faults.push(fault)) == faults_text(faults) + "；"@ + fault,
{
    assert(faults.push(fault).drop_last() =~= faults);
}

/// A patch sets what it names, without the white space around texts, and
/// leaves the rest. Minutes are not negative, ports are those that a user may
/// have, and the address is always that of this machine. Whether downloads
/// are automatic is not changed.
pub proof fn law_patch_sets_what_it_names(
    config: ConfigView,
    patch: ConfigPatch,
    text: String,
    number: i64,
)
    ensures
        ({
            let after = patched(config, patch);
            &&& patch.rss_url == Some(text) ==> after.rss_url == trimmed(text@)
            &&& patch.rss_url is None ==> after.rss_url == config.rss_url
            &&& patch.download_dir == Some(text) ==> after.download_dir == trimmed(text@)
            &&& patch.download_dir is None ==> after.download_dir == config.download_dir
            &&& patch.bitcomet_exe == Some(text) ==> after.bitcomet_exe == trimmed(text@)
            &&& patch.bitcomet_exe is None ==> after.bitcomet_exe == config.bitcomet_exe
            &&& patch.poll_interval_minutes == Some(number) && number >= 0
                ==> after.poll_interval_minutes == number
            &&& patch.poll_interval_minutes == Some(number) && number < 0
                ==> after.poll_interval_minutes == 0
            &&& patch.poll_interval_minutes is None ==> after.poll_interval_minutes
                == config.poll_interval_minutes
            &&& patch.port == Some(number) && 1024 <= number <= 65535 ==> after.port == number
            &&& patch.port == Some(number) && number < 1024 ==> after.port == 1024
            &&& patch.port == Some(number) && number > 65535 ==> after.port == 65535
            &&& patch.port is None ==> after.port == config.port
            &&& patch.proxy_mode is Some ==> after.proxy_mode == patch.proxy_mode->Some_0
            &&& patch.proxy_mode is None ==> after.proxy_mode == config.proxy_mode
            &&& after.bind_host == "127.0.0.1"@
            &&& after.auto_download_enabled == config.auto_download_enabled
        }),
{
}

/// Automatic downloads are switched on only with a configuration that may be
/// used, and then start a second later; they are switched off in any case, and
/// then no poll is left. Nothing else changes.
pub proof fn law_automation_needs_a_usable_configuration(
    inner: InnerView,
    facts: ConfigFacts,
    now: int,
)
    requires
        now + 1000 <= LAST_MILLIS,
    ensures
        ({
            let config = inner.state.config;
            let fault = refusal_of(faults_of(config, facts, scheme_of(config.rss_url), true));
            &&& fault is Some ==> switched(inner, true, facts, now) == (
                Err::<Seq<char>, _>(fault->Some_0),
                inner,
            )
            &&& fault is None ==> switched(inner, true, facts, now) == (
                Ok::<_, Seq<char>>("Automatic downloads enabled"@),
                InnerView {
                    state: StateView {
                        config: ConfigView { auto_download_enabled: true, ..config },
                        ..inner.state
                    },
                    next_poll_at: Some(rfc3339_text_of(now + 1000)),
                    ..inner
                },
            )
            &&& switched(inner, false, facts, now) == (
                Ok::<_, Seq<char>>("Automatic downloads paused"@),
                InnerView {
                    state: StateView {
                        config: ConfigView { auto_download_enabled: false, ..config },
                        ..inner.state
                    },
                    next_poll_at: None,
                    ..inner
                },
            )
        }),
{
}

/// A configuration that was saved and reads back as it was saved stays, with
/// the next poll by it; one that could not be saved, or that reads back
/// otherwise, gives way to the previous one. One that cannot be read back
/// stays, with an error.
pub proof fn law_configuration_is_kept_once_confirmed(
    inner: InnerView,
    previous: ConfigView,
    candidate: ConfigView,
    persisted: AppConfig,
    error: String,
    now: int,
)
    ensures
        config_kept(inner, previous, Ok(()), now) == (None::<Seq<char>>, scheduled(inner, now)),
        config_kept(inner, previous, Err(error), now) == (
            Some("配置写入失败："@ + error@),
            InnerView { state: StateView { config: previous, ..inner.state }, ..inner },
        ),
        persisted@ == candidate ==> confirmed(inner, previous, candidate, Ok(persisted)) == (
            None::<Seq<char>>,
            inner,
        ),
        persisted@ != candidate ==> confirmed(inner, previous, candidate, Ok(persisted)) == (
            Some("配置写入校验失败：磁盘内容与保存内容不一致"@),
            InnerView { state: StateView { config: previous, ..inner.state }, ..inner },
        ),
        confirmed(inner, previous, candidate, Err(error)) == (
            Some("配置写入后无法重新读取："@ + error@),
            inner,
        ),
{
}

/// An executable that was detected is used where none is configured, and is
/// noted in any case. The one that is configured comes before it.
pub proof fn law_detected_executable_stands_in(inner: InnerView, path: Seq<char>)
    ensures
        ({
            let after = detected(inner, path).1;
            &&& after.detected_bitcomet == path
            &&& inner.state.config.bitcomet_exe.len() > 0 ==> detected(inner, path).0 is None
                && after == (InnerView { detected_bitcomet: path, ..inner })
            &&& inner.state.config.bitcomet_exe.len() == 0 && path.len() > 0 ==> detected(
                inner,
                path,
            ).0 == Some("Detected BitComet at "@ + path) && after == (InnerView {
                detected_bitcomet: path,
                state: StateView {
                    config: ConfigView { bitcomet_exe: path, ..inner.state.config },
                    ..inner.state
                },
                ..inner
            })
            &&& path.len() == 0 ==> detected(inner, path).0 is None && after == (InnerView {
                detected_bitcomet: path,
                ..inner
            })
        }),
        inner.state.config.bitcomet_exe.len() > 0 ==> used_path(inner)
            == inner.state.config.bitcomet_exe,
        inner.state.config.bitcomet_exe.len() == 0 ==> used_path(inner) == inner.detected_bitcomet,
{
}

/// A path is inspected for being set, for leading to the executable, and for
/// its version.
pub proof fn law_paths_are_inspected(path: Seq<char>, file: Executable)
    ensures
        inspection_fault(path, file) is None <==> path.len() > 0 && is_recent_bitcomet(file),
        path.len() == 0 ==> inspection_fault(path, file) == Some("BitComet 路径不能为空"@),
        path.len() > 0 && !leads_to_bitcomet(file.facts) ==> inspection_fault(path, file) == Some(
            "路径必须指向 BitComet.exe 或 BitComet_x64.exe"@,
        ),
        path.len() > 0 && leads_to_bitcomet(file.facts) ==> inspection_fault(path, file)
            == version_fault(file),
{
    law_recent_versions_are_supported(file);
    law_executable_is_told_by_its_name(file.facts);
}

/// The service says of itself what it keeps; the version of BitComet is the one
/// that BitComet gives, else that of the file.
pub proof fn law_status_says_what_is_kept(
    service: Service,
    file: Executable,
    ready: bool,
    starts: bool,
    logs: Seq<Seq<char>>,
)
    ensures
        ({
            let inner = service.inner@;
            let status = status_of(service, file, ready, starts, logs);
            &&& status.polling == inner.polling && status.next_poll_at == inner.next_poll_at
            &&& status.last_poll_at == inner.last_poll_at && status.last_poll_error
                == inner.last_poll_error
            &&& status.started_at == inner.started_at && status.preferred_port
                == inner.state.config.port
            &&& status.auto_download_enabled == inner.state.config.auto_download_enabled
            &&& status.bitcomet_detected_path == inner.detected_bitcomet
            &&& status.bitcomet_configured <==> leads_to_bitcomet(file.facts)
            &&& inner.bitcomet_version is Some ==> status.bitcomet_version
                == inner.bitcomet_version
            &&& inner.bitcomet_version is None ==> status.bitcomet_version == version_of(file)
            &&& status.bitcomet_realtime == inner.bitcomet_realtime
            &&& status.bitcomet_realtime_error == inner.bitcomet_realtime_error
            &&& status.download_dir_ready == ready && status.startup_enabled == starts
            &&& status.logs == logs && status.data_dir == service.data_dir@ && status.app_dir
                == service.app_dir@
        }),
{
    law_executable_is_told_by_its_name(file.facts);
}

} // verus!
