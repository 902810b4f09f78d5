//! What is done with BitComet.

use mikan::bitcomet::control::{
    add_torrent, asks_webui, delete_task_and_files, pause_task, resume_task, task_snapshot, Fetched,
    TaskSnapshot,
};
use mikan::bitcomet::executable::Executable;
use mikan::bitcomet::session::Goal;
use mikan::bitcomet::webui::WebUiConfig;
use mikan::models::BitCometTask;
use mikan::util::PathFacts;

fn facts(path: &str, name: &str, is_file: bool) -> PathFacts {
    PathFacts {
        path: path.to_string(),
        file_name: Some(name.to_string()),
        parent: None,
        parent_is_dir: false,
        is_file,
        is_dir: !is_file,
        exists: true,
    }
}

fn bitcomet(version: Option<(u16, u16, u16, u16)>) -> Executable {
    Executable { facts: facts(r"C:\BitComet.exe", "BitComet.exe", true), version }
}

fn task(task_id: &str, info_hash: &str) -> BitCometTask {
    BitCometTask {
        task_id: task_id.to_string(),
        info_hash: info_hash.to_string(),
        finish_date: String::new(),
        left: None,
        progress_percent: None,
        completed: None,
        status: String::new(),
        save_name: String::new(),
        show_name: String::new(),
        save_location: String::new(),
    }
}

fn config() -> WebUiConfig {
    WebUiConfig { ports: vec![8080], username: String::new(), password: String::new() }
}

#[test]
fn falls_back_on_written_tasks() {
    let missing = Executable { facts: facts("x", "x.exe", true), version: None };
    assert!(!asks_webui(&missing));
    let snapshot = task_snapshot(&missing, vec![task("1", "a")], None);
    assert_eq!(snapshot.error.as_deref(), Some("BitComet 路径无效"));
    assert_eq!(snapshot.tasks.len(), 1);
    assert!(!snapshot.realtime);

    let old = bitcomet(Some((2, 9, 0, 0)));
    assert!(!asks_webui(&old));
    let snapshot = task_snapshot(&old, vec![], None);
    assert_eq!(snapshot.version.as_deref(), Some("2.9"));
    assert_eq!(snapshot.error.as_deref(), Some("BitComet 版本必须高于 2.09，当前版本为 2.9"));

    let current = bitcomet(Some((2, 10, 0, 0)));
    assert!(asks_webui(&current));
    let failed = Fetched::Failed(None, "timeout".to_string());
    let snapshot = task_snapshot(&current, vec![task("1", "a")], Some(failed));
    assert_eq!(snapshot.version.as_deref(), Some("2.10"));
    assert_eq!(snapshot.error.as_deref(), Some("timeout"));
    let failed = Fetched::Failed(Some("3".to_string()), "timeout".to_string());
    assert_eq!(task_snapshot(&current, vec![], Some(failed)).version.as_deref(), Some("3"));
}

#[test]
fn prefers_the_tasks_of_the_moment() {
    let fetched = Fetched::Tasks(vec![task("1", "a"), task("2", "b")], "2.11".to_string());
    let snapshot = task_snapshot(&bitcomet(Some((2, 10, 0, 0))), vec![], Some(fetched));
    assert!(snapshot.realtime);
    assert_eq!(snapshot.tasks.len(), 2);
    assert_eq!(snapshot.version.as_deref(), Some("2.11"));
    assert_eq!(snapshot.error, None);
}

fn snapshot(realtime: bool, error: Option<&str>) -> TaskSnapshot {
    TaskSnapshot {
        tasks: vec![task("", "aa"), task("9", "BB")],
        realtime,
        version: None,
        error: error.map(|text| text.to_string()),
    }
}

#[test]
fn controls_the_task_with_the_info_hash() {
    let parts = |goal: &Goal| match goal {
        Goal::Control { endpoint, task_id, action } => {
            (endpoint.clone(), task_id.clone(), action.clone())
        }
        Goal::Tasks => panic!(),
    };
    let expected = |endpoint: &str, action: &str| {
        (endpoint.to_string(), "9".to_string(), action.to_string())
    };
    let talk = pause_task(&snapshot(true, None), config(), "x", "bb").unwrap();
    assert_eq!(parts(talk.goal()), expected("/api_v2/tasks/action", "stop"));
    let talk = resume_task(&snapshot(true, None), config(), "x", "bb").unwrap();
    assert_eq!(parts(talk.goal()), expected("/api_v2/tasks/action", "start"));
    let talk = delete_task_and_files(&snapshot(true, None), config(), "x", "Bb").unwrap();
    assert_eq!(parts(talk.goal()), expected("/api_v2/tasks/delete", "delete_all"));
}

#[test]
fn refuses_to_control_what_is_not_there() {
    let refused = |snapshot: TaskSnapshot, hash: &str| {
        pause_task(&snapshot, config(), "x", hash).unwrap_err()
    };
    assert_eq!(refused(snapshot(false, Some("why")), "bb"), "why");
    assert_eq!(refused(snapshot(false, None), "bb"), "BitComet WebUI 未连接");
    assert_eq!(refused(snapshot(true, None), "cc"), "BitComet 中没有找到对应任务");
    assert_eq!(refused(snapshot(true, None), "aa"), "BitComet 中没有找到对应任务");
}

#[test]
fn starts_bitcomet_with_a_torrent_file() {
    let exe = facts("b", "bitcomet.exe", true);
    let torrent = facts("a.torrent", "a.torrent", true);
    let folder = facts("D:\\", "", false);
    assert_eq!(
        add_torrent(&exe, &torrent, &folder).unwrap(),
        vec!["a.torrent", "--output=D:\\", "--silent", "--tray"]
    );
    assert_eq!(
        add_torrent(&folder, &torrent, &folder).unwrap_err(),
        "BitComet executable is not valid"
    );
    assert_eq!(add_torrent(&exe, &folder, &folder).unwrap_err(), "Torrent file does not exist");
    assert_eq!(
        add_torrent(&exe, &torrent, &torrent).unwrap_err(),
        "Download directory does not exist"
    );
}

#[test]
fn an_empty_snapshot_says_nothing() {
    let snapshot = TaskSnapshot::default();
    assert!(snapshot.tasks.is_empty() && !snapshot.realtime);
    assert!(snapshot.version.is_none() && snapshot.error.is_none());
}
