//! The web interface of BitComet: its answers, and conversations with it.

use mikan::bitcomet::login::{Salts, TokenCache};
use mikan::bitcomet::session::{Conversation, Field, Outcome, Phase};
use mikan::bitcomet::tasks::{ProgressReading, ReportedTask};
use mikan::bitcomet::webui::{
    api_error, config_from, control_action_succeeded, normalize_info_hash, parse_webui_task,
    tried_ports, webui_config, WebUiConfig,
};
use mikan::json::{scalar_string, string_value, u64_value, Json};
use mikan::models::BitCometTask;

fn text(value: &str) -> Json {
    Json::Text(value.to_string())
}

fn number(value: u64) -> Json {
    Json::Number(value.to_string(), Some(value))
}

fn object(members: Vec<(&str, Json)>) -> Json {
    Json::Object(members.into_iter().map(|(name, value)| (name.to_string(), value)).collect())
}

fn measured(task: ReportedTask) -> BitCometTask {
    let percent = match &task.progress {
        ProgressReading::Permille(readings) => {
            readings.iter().find_map(|text| text.parse::<f64>().ok()).map(|value| value / 10.0)
        }
        ProgressReading::Percent(_) => None,
    };
    task.measured(percent.map(f64::to_bits))
}

#[test]
fn parses_realtime_task_list_and_summary() {
    let list = object(vec![
        ("task_id", number(7)),
        ("task_name", text("episode.mkv")),
        ("status", text("running")),
        ("selected_size", number(1_000)),
        ("selected_downloaded_size", number(125)),
        ("permillage", number(125)),
    ]);
    let summary = object(vec![
        (
            "task",
            object(vec![
                ("infohash", text("ABC123")),
                ("save_folder", text("D:\\Downloads")),
                ("finish_time", text("")),
            ]),
        ),
        ("task_status", object(vec![("size_left", number(875))])),
    ]);
    let task = measured(parse_webui_task(&list, &summary).unwrap());
    assert_eq!(task.task_id, "7");
    assert_eq!(task.info_hash, "abc123");
    assert_eq!(task.left, Some(875));
    assert_eq!(task.progress_percent.map(f64::from_bits), Some(12.5));
    assert_eq!(task.save_location, "D:\\Downloads");
}

#[test]
fn parses_bitcomet_task_guid_as_info_hash() {
    let list = object(vec![
        ("task_id", number(1007)),
        ("task_guid", text("bt_57D1B1E7F3B47453C1D36BBB491E98DD6CE249A0")),
        ("task_name", text("episode.mkv")),
        ("status", text("running")),
        ("selected_size", number(1_000)),
        ("selected_downloaded_size", number(415)),
        ("permillage", number(415)),
    ]);
    let summary = object(vec![
        ("error_code", text("FATALL_ERROR")),
        ("error_message", text("task_ids invalid")),
    ]);
    let task = measured(parse_webui_task(&list, &summary).unwrap());
    assert_eq!(task.task_id, "1007");
    assert_eq!(task.info_hash, "57d1b1e7f3b47453c1d36bbb491e98dd6ce249a0");
    assert_eq!(task.left, Some(585));
    assert_eq!(task.progress_percent.map(f64::from_bits), Some(41.5));
}

#[test]
fn accepts_bitcomet_control_success_responses() {
    assert!(control_action_succeeded(
        &object(vec![("error_code", text("ok")), ("error_message", text("action completed."))]),
        "start"
    ));
    assert!(control_action_succeeded(
        &object(vec![
            ("error_code", text("skipped")),
            ("tasks", Json::List(vec![object(vec![("status", text("stopped"))])])),
        ]),
        "stop"
    ));
    assert!(!control_action_succeeded(
        &object(vec![
            ("error_code", text("skipped")),
            ("tasks", Json::List(vec![object(vec![("status", text("running"))])])),
        ]),
        "stop"
    ));
}

#[test]
fn accepts_a_start_by_the_state_of_each_task() {
    let answer = |states: Vec<&str>| {
        let tasks = states.into_iter().map(|state| object(vec![("status", text(state))]));
        object(vec![("tasks", Json::List(tasks.collect()))])
    };
    assert!(control_action_succeeded(&answer(vec!["Starting", "RUNNING"]), "start"));
    assert!(!control_action_succeeded(&answer(vec!["running", "stopped"]), "start"));
    assert!(!control_action_succeeded(&answer(vec![]), "start"));
    assert!(!control_action_succeeded(&answer(vec!["stopped"]), "delete_all"));
    assert!(!control_action_succeeded(&Json::Null, "stop"));
}

#[test]
fn a_task_without_an_info_hash_is_none() {
    assert!(parse_webui_task(&object(vec![("task_id", number(1))]), &Json::Null).is_none());
}

#[test]
fn finishes_a_task_by_its_sizes() {
    let list = object(vec![
        ("infohash", text(" AB ")),
        ("total_size", text("10")),
        ("dl_size", text("12")),
        ("permillage", text("1000")),
    ]);
    let task = parse_webui_task(&list, &Json::Null).unwrap().task;
    assert_eq!(task.info_hash, "ab");
    assert_eq!(task.left, Some(0));
    assert_eq!(task.completed, Some(true));
    assert_eq!(task.task_id, "");
}

#[test]
fn reads_values_by_several_names() {
    let value = object(vec![
        ("a", number(1)),
        ("b", text("")),
        ("c", text("x")),
        ("n", text("+12")),
        ("f", Json::Number("1.5".to_string(), None)),
    ]);
    assert_eq!(string_value(&value, &["a", "c"]).as_deref(), Some("x"));
    assert_eq!(string_value(&value, &["b", "c"]), None);
    assert_eq!(u64_value(&value, &["f", "n"]), Some(12));
    assert_eq!(u64_value(&value, &["c"]), None);
    assert_eq!(scalar_string(value.member("a")).as_deref(), Some("1"));
    assert_eq!(scalar_string(value.member("f")).as_deref(), Some("1.5"));
    assert_eq!(scalar_string(value.member("b")), None);
    assert_eq!(scalar_string(value.member("missing")), None);
}

#[test]
fn brings_info_hashes_into_their_usual_form() {
    assert_eq!(normalize_info_hash("  BT_ABC "), "abc");
    assert_eq!(normalize_info_hash("bt_bt_a"), "bt_a");
    assert_eq!(normalize_info_hash("ABC"), "abc");
}

#[test]
fn says_what_is_wrong_with_an_answer() {
    assert_eq!(api_error(&object(vec![("error_message", text("action completed."))])), "操作已完成。");
    assert_eq!(
        api_error(&object(vec![("error_message", text("action skipped."))])),
        "BitComet 未执行该操作。"
    );
    assert_eq!(api_error(&object(vec![("error_code", text("NO"))])), "NO");
    assert_eq!(api_error(&Json::Null), "BitComet WebUI 返回了无效响应");
}

#[test]
fn tries_each_port_once_in_order() {
    assert_eq!(tried_ports(None, None), vec![2333, 8080]);
    assert_eq!(tried_ports(Some(8080), Some(9000)), vec![2333, 8080, 9000]);
    assert_eq!(tried_ports(Some(1), Some(1)), vec![1, 2333, 8080]);
}

#[test]
fn reads_the_settings_of_bitcomet() {
    let xml = r#"<BitComet><Settings WebInterfacePort="1234">
        <WebInterfaceUsername Value=" u "/><WebUIPassword>p</WebUIPassword></Settings></BitComet>"#;
    let config = webui_config(&vec![vec![0xff, 0xfe, 0x00], xml.as_bytes().to_vec()], "77");
    assert_eq!(config.ports, vec![77, 1234, 2333, 8080]);
    assert_eq!(config.username, "u");
    assert_eq!(config.password, "p");
    let without = webui_config(&vec![b"no xml".to_vec(), xml.as_bytes().to_vec()], "70000");
    assert_eq!(without.ports, vec![2333, 8080]);
    assert_eq!(without.username, "");
    assert_eq!(config_from(&None, "").ports, vec![2333, 8080]);
}

fn config(ports: Vec<u16>, username: &str) -> WebUiConfig {
    WebUiConfig { ports, username: username.to_string(), password: "secret".to_string() }
}

fn salts() -> Salts {
    Salts { key: vec![1; 8], hmac: vec![2; 8], iv: vec![3; 16] }
}

fn answer(talk: &mut Conversation, cache: &mut TokenCache, reply: Json) {
    talk.receive_with(cache, Ok(reply), &Ok(salts()));
}

fn url(talk: &Conversation) -> String {
    talk.request().unwrap().url
}

fn token(talk: &Conversation) -> Option<String> {
    talk.request().unwrap().token
}

#[test]
fn fetches_the_tasks_without_credentials() {
    let mut cache = TokenCache::new();
    let mut talk = Conversation::fetch_webui_tasks(config(vec![1, 8080], ""), "x");
    assert_eq!(url(&talk), "http://127.0.0.1:1/api/webui/ip_verify");
    talk.receive_with(&mut cache, Err("refused".to_string()), &Ok(salts()));
    assert_eq!(url(&talk), "http://127.0.0.1:8080/api/webui/ip_verify");
    answer(
        &mut talk,
        &mut cache,
        object(vec![("version", text("2.10")), ("bypass_eligible", Json::Bool(true))]),
    );
    assert_eq!(url(&talk), "http://127.0.0.1:8080/api/webui/login");
    assert!(matches!(talk.request().unwrap().body[1].1, Field::Flag(true)));
    answer(
        &mut talk,
        &mut cache,
        object(vec![("error_code", text("OK")), ("invite_token", text("invite"))]),
    );
    assert_eq!(url(&talk), "http://127.0.0.1:8080/api/device_token/get");
    assert_eq!(token(&talk).as_deref(), Some("invite"));
    answer(&mut talk, &mut cache, object(vec![("device_token", text("token"))]));
    assert_eq!(url(&talk), "http://127.0.0.1:8080/api_v2/task_list/get");
    assert_eq!(token(&talk).as_deref(), Some("token"));
    assert_eq!(cache.get("http://127.0.0.1:8080").as_deref(), Some("token"));
    let entries = vec![
        object(vec![("task_name", text("no identifier"))]),
        object(vec![("task_id", number(7)), ("infohash", text("AA"))]),
        object(vec![("task_id", number(8))]),
    ];
    answer(
        &mut talk,
        &mut cache,
        object(vec![("error_code", text("OK")), ("tasks", Json::List(entries))]),
    );
    assert_eq!(url(&talk), "http://127.0.0.1:8080/api/tasks/info/get");
    assert!(matches!(
        talk.request().unwrap().body[0].1,
        Field::Value(Json::Number(_, Some(7)))
    ));
    answer(&mut talk, &mut cache, Json::Null);
    assert!(matches!(
        talk.request().unwrap().body[0].1,
        Field::Value(Json::Number(_, Some(8)))
    ));
    answer(&mut talk, &mut cache, Json::Null);
    assert!(talk.request().is_none());
    match talk.outcome() {
        Ok(Outcome::Tasks(tasks, version)) => {
            assert_eq!(tasks.len(), 1);
            assert_eq!(tasks[0].task.info_hash, "aa");
            assert_eq!(version, "2.10");
        }
        other => panic!("{other:?}"),
    }
}

#[test]
fn renews_a_refused_token_once() {
    let mut cache = TokenCache::new();
    cache.insert("http://127.0.0.1:8080".to_string(), "stale".to_string());
    let mut talk = Conversation::fetch_webui_tasks(config(vec![8080], "user"), "x");
    answer(&mut talk, &mut cache, Json::Null);
    assert_eq!(token(&talk).as_deref(), Some("stale"));
    answer(&mut talk, &mut cache, object(vec![("error_code", text("INVALID_TOKEN"))]));
    assert_eq!(cache.get("http://127.0.0.1:8080"), None);
    assert_eq!(url(&talk), "http://127.0.0.1:8080/api/webui/login");
    assert!(matches!(talk.phase(), Phase::Login { authentication: Some(_) }));
    answer(
        &mut talk,
        &mut cache,
        object(vec![("error_code", text("OK")), ("invite_token", text("i"))]),
    );
    answer(&mut talk, &mut cache, object(vec![("device_token", text("fresh"))]));
    answer(&mut talk, &mut cache, object(vec![("error_code", text("INVALID_TOKEN"))]));
    match talk.outcome() {
        Ok(Outcome::Failed(None, message)) => assert_eq!(message, "INVALID_TOKEN"),
        other => panic!("{other:?}"),
    }
}

fn failure(talk: &Conversation) -> &str {
    match talk.phase() {
        Phase::Finished(Outcome::Failed(_, message)) => message,
        other => panic!("{other:?}"),
    }
}

#[test]
fn says_why_the_tasks_cannot_be_fetched() {
    let mut cache = TokenCache::new();
    let mut talk = Conversation::fetch_webui_tasks(config(vec![2333, 8080], ""), "x");
    talk.receive_with(&mut cache, Err("a".to_string()), &Ok(salts()));
    talk.receive_with(&mut cache, Err("b".to_string()), &Ok(salts()));
    assert_eq!(
        failure(&talk),
        "无法连接 BitComet WebUI；请在 BitComet 设置 > 远程访问中启用 Web UI（已检查端口 2333、8080）"
    );

    let mut talk = Conversation::fetch_webui_tasks(config(vec![8080], ""), "x");
    answer(
        &mut talk,
        &mut cache,
        object(vec![("error_code", text("APP_ACCESS_DISABLED")), ("version", text("2.1"))]),
    );
    assert_eq!(
        failure(&talk),
        "BitComet WebUI 未开启；请在 BitComet 设置的远程访问中启用 WebUI（端口 8080）"
    );
    assert!(matches!(
        talk.outcome(),
        Ok(Outcome::Failed(Some(version), _)) if version == "2.1"
    ));

    let mut talk = Conversation::fetch_webui_tasks(config(vec![8080], ""), "x");
    answer(&mut talk, &mut cache, Json::Null);
    assert_eq!(
        failure(&talk),
        "BitComet WebUI 需要登录，但未在 BitComet.xml 中找到用户名；可开启“允许本机免登录”"
    );

    let mut talk = Conversation::fetch_webui_tasks(config(vec![8080], "user"), "x");
    answer(&mut talk, &mut cache, Json::Null);
    answer(&mut talk, &mut cache, object(vec![("error_message", text("wrong password"))]));
    assert_eq!(failure(&talk), "wrong password");

    let mut talk = Conversation::fetch_webui_tasks(config(vec![8080], "user"), "x");
    answer(&mut talk, &mut cache, Json::Null);
    talk.receive_with(&mut cache, Err("timeout".to_string()), &Ok(salts()));
    assert_eq!(failure(&talk), "timeout");
}

#[test]
fn lets_a_task_stop() {
    let mut cache = TokenCache::new();
    cache.insert("http://127.0.0.1:8080".to_string(), "token".to_string());
    let start = || {
        Conversation::control(
            config(vec![8080], ""),
            "x",
            "/api_v2/tasks/action",
            "7".to_string(),
            "stop",
        )
    };
    let mut talk = start();
    answer(&mut talk, &mut cache, object(vec![("error_code", text("APP_ACCESS_DISABLED"))]));
    assert_eq!(url(&talk), "http://127.0.0.1:8080/api_v2/tasks/action");
    match &talk.request().unwrap().body[0].1 {
        Field::Texts(ids) => assert_eq!(ids, &vec!["7".to_string()]),
        other => panic!("{other:?}"),
    }
    answer(&mut talk, &mut cache, object(vec![("error_code", text("Ok"))]));
    assert!(matches!(talk.phase(), Phase::Finished(Outcome::Acted)));

    let mut talk = start();
    answer(&mut talk, &mut cache, Json::Null);
    answer(&mut talk, &mut cache, object(vec![("error_message", text("action skipped."))]));
    assert_eq!(failure(&talk), "BitComet 未执行该操作。");

    let mut talk = start();
    talk.receive_with(&mut cache, Err("refused".to_string()), &Ok(salts()));
    assert_eq!(failure(&talk), "无法连接 BitComet WebUI");
}

#[test]
fn draws_its_own_random_bytes() {
    let mut cache = TokenCache::new();
    let mut first = Conversation::fetch_webui_tasks(config(vec![8080], "user"), "x");
    let mut second = Conversation::fetch_webui_tasks(config(vec![8080], "user"), "x");
    first.receive(&mut cache, Ok(Json::Null));
    second.receive(&mut cache, Ok(Json::Null));
    let sealed = |talk: &Conversation| match talk.phase() {
        Phase::Login { authentication: Some(text) } => text.clone(),
        other => panic!("{other:?}"),
    };
    assert_ne!(sealed(&first), sealed(&second));
}

#[test]
fn draws_random_bytes_only_for_sealed_credentials() {
    let none = || Err("no random bytes".to_string());
    let mut cache = TokenCache::new();
    let mut talk = Conversation::fetch_webui_tasks(config(vec![8080], "user"), "x");
    talk.receive_with(&mut cache, Ok(object(vec![("version", text("2.1"))])), &none());
    assert!(matches!(
        talk.outcome(),
        Ok(Outcome::Failed(Some(version), message)) if version == "2.1"
            && message == "no random bytes"
    ));

    let mut talk = Conversation::fetch_webui_tasks(config(vec![8080], "user"), "x");
    let let_in = object(vec![("bypass_eligible", Json::Bool(true))]);
    talk.receive_with(&mut cache, Ok(let_in), &none());
    assert!(matches!(talk.phase(), Phase::Login { authentication: None }));

    cache.insert("http://127.0.0.1:8080".to_string(), "token".to_string());
    let mut talk = Conversation::fetch_webui_tasks(config(vec![8080], "user"), "x");
    talk.receive_with(&mut cache, Ok(Json::Null), &none());
    assert!(matches!(talk.phase(), Phase::Ask { .. }));
    let refused = object(vec![("error_code", text("INVALID_TOKEN"))]);
    talk.receive_with(&mut cache, Ok(refused), &none());
    assert_eq!(failure(&talk), "no random bytes");
    assert_eq!(cache.get("http://127.0.0.1:8080"), None);
}

#[test]
fn carries_a_conversation_on_by_itself() {
    let mut cache = TokenCache::new();
    let mut talk = Conversation::fetch_webui_tasks(config(vec![8080], ""), "x");
    talk.receive(&mut cache, Ok(object(vec![("bypass_eligible", Json::Bool(true))])));
    assert_eq!(url(&talk), "http://127.0.0.1:8080/api/webui/login");
    let invited = object(vec![("error_code", text("OK")), ("invite_token", text("i"))]);
    talk.receive(&mut cache, Ok(invited));
    talk.receive(&mut cache, Ok(object(vec![("device_token", text("token"))])));
    assert_eq!(token(&talk).as_deref(), Some("token"));
    talk = talk.outcome().unwrap_err();
    talk.receive(&mut cache, Ok(object(vec![("error_code", text("OK"))])));
    assert!(matches!(talk.outcome(), Ok(Outcome::Tasks(tasks, _)) if tasks.is_empty()));
}
