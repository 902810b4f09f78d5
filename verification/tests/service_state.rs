//! The state of the service, its schedule, its configuration and its log.

use mikan::bitcomet::control::TaskSnapshot;
use mikan::bitcomet::executable::Executable;
use mikan::clock::Moment;
use mikan::models::{AppConfig, AppState, ConfigPatch, ProxyMode};
use mikan::service::logs::{
    log_line, needs_rotation, numbered_log_name, read_length, read_recent_lines, rotation_steps,
    write_line, RotationStep,
};
use mikan::service::settings::{
    inspect_bitcomet, patch_config, validate_config, validate_config_fields, ConfigFacts,
};
use mikan::service::state::{
    finish_polling, schedule_soon, update_schedule, Inner, Service,
};
use mikan::util::PathFacts;

fn moment(millis: i64) -> Moment {
    Moment::after_millis(millis).unwrap()
}

fn service() -> Service {
    Service::new(
        "app".to_string(),
        "data".to_string(),
        "data/state.json".to_string(),
        "data/logs/service.log".to_string(),
        "app/mikan.exe".to_string(),
        AppState::default(),
        &moment(0),
    )
}

fn facts(is_dir: bool, is_file: bool, name: &str) -> PathFacts {
    PathFacts {
        path: "p".to_string(),
        file_name: Some(name.to_string()),
        parent: None,
        parent_is_dir: false,
        is_file,
        is_dir,
        exists: is_dir || is_file,
    }
}

fn missing() -> ConfigFacts {
    ConfigFacts {
        download_dir: facts(false, false, ""),
        executable: Executable { facts: facts(false, false, ""), version: None },
    }
}

fn present() -> ConfigFacts {
    ConfigFacts {
        download_dir: facts(true, false, ""),
        executable: Executable {
            facts: facts(false, true, "BitComet.exe"),
            version: Some((2, 10, 0, 0)),
        },
    }
}

fn complete() -> AppConfig {
    AppConfig {
        rss_url: "https://example.test/rss".to_string(),
        download_dir: "d".to_string(),
        bitcomet_exe: "b".to_string(),
        ..AppConfig::default()
    }
}

#[test]
fn save_failure_always_resets_polling_state() {
    let mut inner = Inner {
        state: AppState::default(),
        started_at: mikan::util::now_iso(),
        next_poll_at: None,
        polling: true,
        last_poll_at: None,
        last_poll_error: None,
        detected_bitcomet: String::new(),
        bitcomet_version: None,
        bitcomet_realtime: false,
        bitcomet_realtime_error: None,
    };
    finish_polling(&mut inner, &Err("disk full".to_string()), &Moment::now());
    assert!(!inner.polling);
    assert_eq!(inner.last_poll_error.as_deref(), Some("disk full"));
}

#[test]
fn scheduling_is_disabled_by_default() {
    let mut inner = Inner {
        state: AppState::default(),
        started_at: mikan::util::now_iso(),
        next_poll_at: Some(mikan::util::now_iso()),
        polling: false,
        last_poll_at: None,
        last_poll_error: None,
        detected_bitcomet: String::new(),
        bitcomet_version: None,
        bitcomet_realtime: false,
        bitcomet_realtime_error: None,
    };
    update_schedule(&mut inner, &Moment::now());
    assert!(inner.next_poll_at.is_none());
    inner.state.config.auto_download_enabled = true;
    update_schedule(&mut inner, &Moment::now());
    assert!(inner.next_poll_at.is_some());
}

#[test]
fn polls_once_an_interval_is_over() {
    let mut service = service();
    service.inner.state.config.auto_download_enabled = true;
    assert!(!service.poll_due(&moment(0)));
    update_schedule(&mut service.inner, &moment(1_000));
    assert_eq!(service.inner.next_poll_at.as_deref(), Some("1970-01-01T00:15:01.000Z"));
    assert!(!service.poll_due(&moment(900_999)));
    assert!(service.poll_due(&moment(901_000)));
    service.inner.state.config.poll_interval_minutes = 0;
    update_schedule(&mut service.inner, &moment(0));
    assert_eq!(service.inner.next_poll_at.as_deref(), Some("1970-01-01T00:01:00.000Z"));
    service.inner.state.config.poll_interval_minutes = 5_000;
    update_schedule(&mut service.inner, &moment(0));
    assert_eq!(service.inner.next_poll_at.as_deref(), Some("1970-01-02T00:00:00.000Z"));
    schedule_soon(&mut service.inner, &moment(7));
    assert_eq!(service.inner.next_poll_at.as_deref(), Some("1970-01-01T00:00:01.007Z"));
    service.inner.next_poll_at = Some("soon".to_string());
    assert!(!service.poll_due(&moment(901_000)));
}

#[test]
fn rejects_incomplete_runtime_configuration() {
    let error = validate_config(&AppConfig::default(), &missing()).unwrap_err();
    assert!(error.contains("RSS 地址不能为空"));
    assert!(error.contains("下载目录不能为空"));
    assert!(error.contains("BitComet 路径不能为空"));
}

#[test]
fn rejects_out_of_range_poll_interval() {
    let config = AppConfig { poll_interval_minutes: 0, ..AppConfig::default() };
    assert!(validate_config(&config, &missing())
        .unwrap_err()
        .contains("轮询间隔必须是 1 到 1440 之间的整数分钟"));
}

#[test]
fn lists_all_faults_of_a_configuration() {
    let config = AppConfig {
        rss_url: "ftp://example.test".to_string(),
        poll_interval_minutes: 1441,
        ..complete()
    };
    assert_eq!(
        validate_config(&config, &missing()).unwrap_err(),
        "配置不可用：RSS 地址必须是 http:// 或 https:// URL；下载目录不存在或不是文件夹；\
         BitComet 路径必须指向 BitComet.exe 或 BitComet_x64.exe；轮询间隔必须是 1 到 1440 之间的整数分钟"
    );
    let old = ConfigFacts {
        executable: Executable {
            facts: facts(false, true, "BitComet.exe"),
            version: Some((2, 9, 0, 0)),
        },
        ..present()
    };
    assert_eq!(
        validate_config_fields(&complete(), &old).unwrap_err(),
        "配置不可用：BitComet 版本必须高于 2.09，当前版本为 2.9"
    );
    assert_eq!(validate_config(&complete(), &present()), Ok(()));
}

#[test]
fn keeps_an_incomplete_configuration() {
    assert_eq!(validate_config_fields(&AppConfig::default(), &missing()), Ok(()));
    let config = AppConfig { rss_url: "no url".to_string(), ..AppConfig::default() };
    assert!(validate_config_fields(&config, &missing()).is_err());
}

#[test]
fn patches_what_is_given() {
    let patch = ConfigPatch {
        rss_url: Some(" https://e ".to_string()),
        poll_interval_minutes: Some(-3),
        port: Some(80),
        proxy_mode: Some(ProxyMode::NoProxy),
        ..ConfigPatch::default()
    };
    let config = patch_config(&AppConfig { bind_host: "0.0.0.0".to_string(), ..complete() }, patch);
    assert_eq!(config.rss_url, "https://e");
    assert_eq!(config.download_dir, "d");
    assert_eq!(config.poll_interval_minutes, 0);
    assert_eq!(config.port, 1024);
    assert_eq!(config.bind_host, "127.0.0.1");
    assert_eq!(config.proxy_mode, ProxyMode::NoProxy);
    let wide = ConfigPatch { port: Some(70_000), ..ConfigPatch::default() };
    assert_eq!(patch_config(&complete(), wide).port, 65_535);
    let nothing = patch_config(&complete(), ConfigPatch::default());
    assert!(nothing.same_as(&complete()));
}

#[test]
fn rolls_a_configuration_back() {
    let mut service = service();
    let update = service.update_config(complete(), &present()).unwrap();
    assert!(service.config().same_as(&complete()));
    let error = service.config_saved(&update, &Err("full".to_string()), &moment(0)).unwrap_err();
    assert_eq!(error, "配置写入失败：full");
    assert!(service.config().same_as(&AppConfig::default()));

    let update = service.update_config(complete(), &present()).unwrap();
    service.config_saved(&update, &Ok(()), &moment(0)).unwrap();
    let error = service.confirm_config(&update, &Ok(AppConfig::default())).unwrap_err();
    assert_eq!(error, "配置写入校验失败：磁盘内容与保存内容不一致");
    assert!(service.config().same_as(&AppConfig::default()));

    let update = service.update_config(complete(), &present()).unwrap();
    let error = service.confirm_config(&update, &Err("gone".to_string())).unwrap_err();
    assert_eq!(error, "配置写入后无法重新读取：gone");
    assert!(service.confirm_config(&update, &Ok(complete())).is_ok());
    assert!(service.config().same_as(&complete()));

    let bad = AppConfig { poll_interval_minutes: 0, ..complete() };
    assert!(service.update_config(bad, &present()).is_err());
    assert!(service.config().same_as(&complete()));
}

#[test]
fn switches_automatic_downloads() {
    let mut service = service();
    assert!(service.set_auto_download(true, &present(), &moment(0)).is_err());
    assert!(!service.config().auto_download_enabled);
    service.inner.state.config = complete();
    assert_eq!(
        service.set_auto_download(true, &present(), &moment(0)).unwrap(),
        "Automatic downloads enabled"
    );
    assert!(service.polls_at_start());
    assert_eq!(service.inner.next_poll_at.as_deref(), Some("1970-01-01T00:00:01.000Z"));
    assert_eq!(
        service.set_auto_download(false, &missing(), &moment(0)).unwrap(),
        "Automatic downloads paused"
    );
    assert_eq!(service.inner.next_poll_at, None);
    assert!(!service.polls_at_start());
}

#[test]
fn adopts_a_detected_executable() {
    let mut service = service();
    assert_eq!(service.refresh_bitcomet_detection(String::new()), None);
    assert_eq!(
        service.refresh_bitcomet_detection("b".to_string()).as_deref(),
        Some("Detected BitComet at b")
    );
    assert_eq!(service.bitcomet_path(), "b");
    assert_eq!(service.refresh_bitcomet_detection("c".to_string()), None);
    assert_eq!(service.config().bitcomet_exe, "b");
    assert_eq!(service.inner.detected_bitcomet, "c");
}

#[test]
fn says_how_it_is() {
    let mut service = service();
    service.inner.state.config = complete();
    service.inner.state.config.rss_url = "https://e/?token=t".to_string();
    let logs = vec!["line".to_string()];
    let status = service.status_value(&present().executable, true, false, logs);
    assert_eq!(status.started_at, "1970-01-01T00:00:00.000Z");
    assert_eq!(status.preferred_port, 3199);
    assert_eq!(status.bitcomet_version.as_deref(), Some("2.10"));
    assert!(status.bitcomet_configured && status.download_dir_ready && !status.startup_enabled);
    assert_eq!(status.logs, vec!["line"]);
    service.update_bitcomet_status(&TaskSnapshot {
        version: Some("3".to_string()),
        error: Some("e".to_string()),
        ..TaskSnapshot::default()
    });
    let status = service.status_value(&present().executable, true, false, vec![]);
    assert_eq!(status.bitcomet_version.as_deref(), Some("3"));
    assert_eq!(status.bitcomet_realtime_error.as_deref(), Some("e"));
    let report = service.config_value(true);
    assert_eq!(report.rss_url_masked, "https://e/?token=***");
    assert_eq!(report.config.rss_url, "https://e/?token=t");
    assert_eq!(report.data_file_path, "data/state.json");
    assert!(report.portable_mode);
    assert_eq!(service.download_dir(), "d");
}

#[test]
fn inspects_a_path() {
    let good = inspect_bitcomet(" b ", &present().executable);
    assert_eq!(good.path, "b");
    assert!(good.valid && good.supported && good.error.is_none());
    assert_eq!(good.version.as_deref(), Some("2.10"));
    let empty = inspect_bitcomet(" ", &missing().executable);
    assert_eq!(empty.error.as_deref(), Some("BitComet 路径不能为空"));
    let other = inspect_bitcomet("x", &missing().executable);
    assert_eq!(other.error.as_deref(), Some("路径必须指向 BitComet.exe 或 BitComet_x64.exe"));
    assert!(!other.valid && !other.supported && other.version.is_none());
}

#[test]
fn writes_lines_of_the_log() {
    assert_eq!(
        log_line("now", "INFO", "GET /?key=secret x"),
        "now INFO GET /?key=[redacted] x\n"
    );
    assert_eq!(write_line("n", "E", &"a".repeat(5000)).len(), "n E \n".len() + 4000);
}

#[test]
fn rotates_the_log() {
    assert!(!needs_rotation(5, 5, 10));
    assert!(needs_rotation(6, 5, 10));
    assert!(needs_rotation(u64::MAX, u64::MAX, 10));
    assert_eq!(
        rotation_steps(2),
        vec![
            RotationStep { source: 1, destination: 2 },
            RotationStep { source: 0, destination: 1 },
        ]
    );
    assert_eq!(numbered_log_name(&Some("a.log".to_string()), 3), "a.log.3");
    assert_eq!(numbered_log_name(&None, 1), "service.log.1");
}

#[test]
fn rotates_logs_and_reads_only_recent_lines() {
    let log = b"one\ntwo\nthree\n".to_vec();
    assert_eq!(
        read_recent_lines(&log, read_length(log.len() as u64, 1024) < log.len() as u64, 2),
        vec!["two".to_string(), "three".to_string()]
    );
    assert!(needs_rotation(log.len() as u64, 5, 10));
    assert_eq!(
        rotation_steps(3).last(),
        Some(&RotationStep { source: 0, destination: 1 })
    );
    assert_eq!(numbered_log_name(&Some("service.log".to_string()), 1), "service.log.1");
}

#[test]
fn keeps_every_log_but_the_oldest() {
    let mut logs = vec![Some("now"), Some("a"), None, Some("c")];
    for step in rotation_steps(3) {
        logs[step.destination] = logs[step.source].take();
    }
    assert_eq!(logs, vec![None, Some("now"), Some("a"), None]);
}

#[test]
fn leaves_a_broken_first_line_out() {
    assert_eq!(read_recent_lines(&b"ne\ntwo\n\xff".to_vec(), true, 9), vec!["two", "\u{fffd}"]);
    assert_eq!(read_recent_lines(&b"no end".to_vec(), true, 9), vec!["no end"]);
    assert!(read_recent_lines(&b"a\nb".to_vec(), false, 0).is_empty());
}
