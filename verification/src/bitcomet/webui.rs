//! The web interface of BitComet: where it is found, and what its answers
//! say.

use vstd::prelude::*;
use vstd::string::*;
use vstd::utf8::*;

use crate::bitcomet::tasks::{
    field, field_of, file_text, is_called, read_xml, ProgressReading, ReadingView, ReportedTask,
    ReportedView,
};
use crate::json::{
    first_number, given_text, list_in, member_of, scalar_in, scalar_string, string_value, text_in,
    u64_value, Json,
};
use crate::models::{BitCometTask, TaskView};
use crate::number::{decimal_value, parse_decimal};
use crate::outside::same_text;
use crate::text::{
    chars_of, lower, optional, same_ignoring_case, starts_with, text_between, texts, to_lower, trim,
    trim_leading, trimmed, without_leading,
};
use crate::xml::{document_of, nodes_view, read_document, NodeView, XmlNode};

verus! {

/// Where the web interface is found, and who logs in there.
#[derive(Debug)]
pub struct WebUiConfig {
    pub ports: Vec<u16>,
    pub username: String,
    pub password: String,
}

/// What the settings in a file of BitComet say of the web interface.
pub struct SettingsView {
    pub port: Option<u16>,
    pub username: Seq<char>,
    pub password: Seq<char>,
}

/// The port that a text gives.
pub open spec fn port_in(text: Seq<char>) -> Option<u16> {
    match decimal_value(encode_utf8(text), 65535) {
        Some(port) => Some(port as u16),
        None => None,
    }
}

/// Settings that say nothing.
pub open spec fn no_settings() -> SettingsView {
    SettingsView { port: None, username: Seq::empty(), password: Seq::empty() }
}

/// The first element with a name, from a node on, but for the case of
/// letters, or the number of nodes.
pub open spec fn find_called(nodes: Seq<NodeView>, name: Seq<char>, from: int) -> int
    decreases nodes.len() - from,
{
    if from < 0 || from >= nodes.len() {
        nodes.len() as int
    } else if is_called(nodes[from], name) {
        from
    } else {
        find_called(nodes, name, from + 1)
    }
}

/// The settings in a document.
pub open spec fn settings_in(nodes: Option<Seq<NodeView>>) -> SettingsView {
    match nodes {
        Some(nodes) => {
            let settings = find_called(nodes, "Settings"@, 0);
            if settings < nodes.len() {
                SettingsView {
                    port: port_in(field_of(nodes, settings, ["WebInterfacePort", "WebUIPort"]@)),
                    username: field_of(
                        nodes,
                        settings,
                        ["WebInterfaceUsername", "WebUIUsername"]@,
                    ),
                    password: field_of(
                        nodes,
                        settings,
                        ["WebInterfacePassword", "WebUIPassword"]@,
                    ),
                }
            } else {
                no_settings()
            }
        },
        None => no_settings(),
    }
}

/// The settings in the first of several files, from one on, whose text can be
/// read.
pub open spec fn settings_of(files: Seq<Vec<u8>>, from: int) -> SettingsView
    decreases files.len() - from,
{
    if from < 0 || from >= files.len() {
        no_settings()
    } else {
        match file_text(files[from]@) {
            Ok(xml) => settings_in(document_of(without_leading(xml, '\u{feff}'))),
            Err(_) => settings_of(files, from + 1),
        }
    }
}

/// Whether ports are in ascending order, none of them twice.
pub open spec fn ascending(ports: Seq<u16>) -> bool {
    forall|i: int, j: int| 0 <= i < j < ports.len() ==> ports[i] < ports[j]
}

/// The ports that are tried: the two that BitComet has by itself, that of its
/// settings and that of the environment.
pub open spec fn is_tried(port: u16, from_settings: Option<u16>, from_environment: Option<u16>) -> bool {
    port == 8080 || port == 2333 || from_settings == Some(port) || from_environment == Some(port)
}

/// Whether ports are those that are tried, in ascending order.
pub open spec fn are_tried(
    ports: Seq<u16>,
    from_settings: Option<u16>,
    from_environment: Option<u16>,
) -> bool {
    &&& ascending(ports)
    &&& forall|port: u16| #[trigger]
        ports.contains(port) <==> is_tried(port, from_settings, from_environment)
}

/// There is one list only of the ports that are tried.
pub proof fn law_tried_ports_are_determined(
    left: Seq<u16>,
    right: Seq<u16>,
    from_settings: Option<u16>,
    from_environment: Option<u16>,
)
    requires
        are_tried(left, from_settings, from_environment),
        are_tried(right, from_settings, from_environment),
    ensures
        left == right,
{
    lemma_same_members(left, right);
}

proof fn lemma_same_members(left: Seq<u16>, right: Seq<u16>)
    requires
        ascending(left),
        ascending(right),
        forall|port: u16| #[trigger] left.contains(port) <==> right.contains(port),
    ensures
        left == right,
    decreases left.len(),
{
    if left.len() == 0 {
        if right.len() > 0 {
            assert(right.contains(right[0]));
            assert(left.contains(right[0]));
        }
        assert(left =~= right);
    } else {
        assert(left.contains(left.last()));
        let at = choose|i: int| 0 <= i < right.len() && right[i] == left.last();
        assert(right.contains(right.last()));
        assert(left.contains(right.last()));
        let place = choose|i: int| 0 <= i < left.len() && left[i] == right.last();
        assert(left.last() == right.last());
        let shorter = left.drop_last();
        let other = right.drop_last();
        assert forall|port: u16| #[trigger] shorter.contains(port) <==> other.contains(port) by {
            if shorter.contains(port) {
                let i = choose|i: int| 0 <= i < shorter.len() && shorter[i] == port;
                assert(left[i] == port && port < left.last());
                assert(left.contains(port));
                let j = choose|j: int| 0 <= j < right.len() && right[j] == port;
                assert(other[j] == port);
            }
            if other.contains(port) {
                let i = choose|i: int| 0 <= i < other.len() && other[i] == port;
                assert(right[i] == port && port < right.last());
                assert(left.contains(port) <==> right.contains(port));
                let j = choose|j: int| 0 <= j < left.len() && left[j] == port;
                assert(shorter[j] == port);
            }
        }
        lemma_same_members(shorter, other);
        assert(left =~= shorter.push(left.last()));
        assert(right =~= other.push(right.last()));
    }
}

fn insert_port(ports: &mut Vec<u16>, port: u16)
    requires
        ascending(old(ports)@),
    ensures
        ascending(final(ports)@),
        forall|other: u16| #[trigger]
            final(ports)@.contains(other) <==> old(ports)@.contains(other) || other == port,
{
    let ghost before = ports@;
    let mut at: usize = 0;
    while at < ports.len() && ports[at] < port
        invariant
            at <= ports@.len(),
            ports@ == before,
            forall|j: int| 0 <= j < at ==> ports@[j] < port,
        decreases ports@.len() - at,
    {
        at += 1;
    }
    if at < ports.len() && ports[at] == port {
        assert(before.contains(port));
        return;
    }
    ports.insert(at, port);
    proof {
        let after = ports@;
        assert(after == before.insert(at as int, port));
        assert forall|i: int, j: int| 0 <= i < j < after.len() implies after[i] < after[j] by {
            let left = if i < at {
                i
            } else {
                i - 1
            };
            let right = if j < at {
                j
            } else {
                j - 1
            };
            if i != at && j != at {
                assert(before[left] < before[right]);
            } else if j != at {
                assert(before[at as int] <= before[right]);
            }
        }
        assert forall|other: u16| #[trigger] after.contains(other) <==> before.contains(other)
            || other == port by {
            if before.contains(other) {
                let i = choose|i: int| 0 <= i < before.len() && before[i] == other;
                if i < at {
                    assert(after[i] == other);
                } else {
                    assert(after[i + 1] == other);
                }
            }
            assert(after[at as int] == port);
            if after.contains(other) && other != port {
                let i = choose|i: int| 0 <= i < after.len() && after[i] == other;
                if i < at {
                    assert(before[i] == other);
                } else {
                    assert(before[i - 1] == other);
                }
            }
        }
    }
}

fn read_port(text: &str) -> (r: Option<u16>)
    ensures
        r == port_in(text@),
{
    match parse_decimal(text.as_bytes(), 65535) {
        Some(port) => Some(port as u16),
        None => None,
    }
}

/// The ports that are tried.
pub fn tried_ports(from_settings: Option<u16>, from_environment: Option<u16>) -> (r: Vec<u16>)
    ensures
        are_tried(r@, from_settings, from_environment),
{
    let mut ports: Vec<u16> = Vec::new();
    insert_port(&mut ports, 8080);
    insert_port(&mut ports, 2333);
    if let Some(port) = from_settings {
        insert_port(&mut ports, port);
    }
    if let Some(port) = from_environment {
        insert_port(&mut ports, port);
    }
    ports
}

fn settings_element(nodes: &Vec<XmlNode>) -> (r: Option<usize>)
    ensures
        match r {
            Some(at) => at < nodes@.len() && find_called(nodes_view(nodes@), "Settings"@, 0) == at,
            None => find_called(nodes_view(nodes@), "Settings"@, 0) == nodes@.len(),
        },
{
    let mut i: usize = 0;
    while i < nodes.len()
        invariant
            i <= nodes@.len(),
            find_called(nodes_view(nodes@), "Settings"@, 0) == find_called(
                nodes_view(nodes@),
                "Settings"@,
                i as int,
            ),
        decreases nodes@.len() - i,
    {
        if nodes[i].element && same_ignoring_case(&nodes[i].name, "Settings") {
            return Some(i);
        }
        i += 1;
    }
    None
}

/// Reads the configuration out of the settings in a document, where there is
/// one, and the port that the environment gives.
pub fn config_from(nodes: &Option<Vec<XmlNode>>, environment_port: &str) -> (r: WebUiConfig)
    ensures
        ({
            let settings = settings_in(
                match nodes {
                    Some(nodes) => Some(nodes_view(nodes@)),
                    None => None,
                },
            );
            &&& are_tried(r.ports@, settings.port, port_in(environment_port@))
            &&& r.username@ == settings.username
            &&& r.password@ == settings.password
        }),
{
    let mut port: Option<u16> = None;
    let mut username = String::new();
    let mut password = String::new();
    if let Some(nodes) = nodes {
        if let Some(settings) = settings_element(nodes) {
            port = read_port(&field(nodes, settings, &["WebInterfacePort", "WebUIPort"]));
            username = field(nodes, settings, &["WebInterfaceUsername", "WebUIUsername"]);
            password = field(nodes, settings, &["WebInterfacePassword", "WebUIPassword"]);
        }
    }
    WebUiConfig { ports: tried_ports(port, read_port(environment_port)), username, password }
}

/// Works out where the web interface is found: from the first of the files of
/// BitComet whose text can be read, and the port that the environment gives.
pub fn webui_config(files: &Vec<Vec<u8>>, environment_port: &str) -> (r: WebUiConfig)
    ensures
        ({
            let settings = settings_of(files@, 0);
            &&& are_tried(r.ports@, settings.port, port_in(environment_port@))
            &&& r.username@ == settings.username
            &&& r.password@ == settings.password
        }),
{
    let mut i: usize = 0;
    while i < files.len()
        invariant
            i <= files@.len(),
            settings_of(files@, 0) == settings_of(files@, i as int),
        decreases files@.len() - i,
    {
        if let Ok(xml) = read_xml(&files[i]) {
            return config_from(&read_document(&trim_leading(&xml, '\u{feff}')), environment_port);
        }
        i += 1;
    }
    config_from(&None, environment_port)
}

/// An info hash in its usual form: in lower case, without white space around
/// it and without the mark of BitComet before it.
pub open spec fn plain_hash(text: Seq<char>) -> Seq<char> {
    let value = lower(trimmed(text));
    if "bt_"@.is_prefix_of(value) {
        value.skip(3)
    } else {
        value
    }
}

/// Brings an info hash into its usual form.
pub fn normalize_info_hash(value: &str) -> (r: String)
    ensures
        r@ == plain_hash(value@),
{
    let value = to_lower(&trim(value));
    if starts_with(&value, "bt_") {
        let chars = chars_of(&value);
        proof {
            reveal_strlit("bt_");
        }
        assert(chars@.subrange(3, chars@.len() as int) =~= value@.skip(3));
        text_between(&chars, 3, chars.len())
    } else {
        value
    }
}

/// A member of an object, or nothing.
pub open spec fn part_of(value: Json, name: Seq<char>) -> Json {
    match member_of(value, name) {
        Some(part) => part,
        None => Json::Null,
    }
}

/// A text, or an empty one.
pub open spec fn text_or_empty(text: Option<Seq<char>>) -> Seq<char> {
    match text {
        Some(text) => text,
        None => Seq::empty(),
    }
}

/// The texts that may be the number of a value.
pub open spec fn readings_of(value: Option<Json>) -> Seq<Seq<char>> {
    match value {
        Some(Json::Number(text, _)) => seq![text@],
        Some(Json::Text(text)) => seq![text@],
        _ => Seq::empty(),
    }
}

/// The task that an entry of the task list and the summary of the task
/// describe. Without an info hash it is none.
pub open spec fn webui_task(list: Json, summary: Json) -> Option<ReportedView> {
    let task = part_of(summary, "task"@);
    let status = part_of(summary, "task_status"@);
    let hash = match given_text(task, ["infohash", "info_hash"]@) {
        Some(hash) => Some(hash),
        None => given_text(list, ["infohash", "info_hash", "task_guid"]@),
    };
    let size = first_number(list, ["selected_size", "total_size"]@, 0);
    let done = first_number(list, ["selected_downloaded_size", "dl_size"]@, 0);
    let name = text_or_empty(given_text(list, ["task_name"]@));
    match hash {
        Some(hash) => Some(
            ReportedView {
                task: TaskView {
                    task_id: text_or_empty(scalar_in(member_of(list, "task_id"@))),
                    info_hash: plain_hash(hash),
                    finish_date: text_or_empty(given_text(task, ["finish_time", "finish_date"]@)),
                    left: match first_number(status, ["size_left"]@, 0) {
                        Some(left) => Some(left),
                        None => match (size, done) {
                            (Some(size), Some(done)) => Some(
                                if size > done {
                                    (size - done) as u64
                                } else {
                                    0
                                },
                            ),
                            _ => None,
                        },
                    },
                    progress_percent: None,
                    completed: match (size, done) {
                        (Some(size), Some(done)) => Some(size > 0 && done >= size),
                        _ => None,
                    },
                    status: text_or_empty(given_text(list, ["status"]@)),
                    save_name: match given_text(task, ["save_name", "task_name"]@) {
                        Some(name) => name,
                        None => name,
                    },
                    show_name: name,
                    save_location: text_or_empty(
                        given_text(task, ["save_folder", "save_location"]@),
                    ),
                },
                progress: ReadingView::Permille(
                    readings_of(member_of(list, "permillage"@)) + readings_of(
                        member_of(status, "download_permillage"@),
                    ),
                ),
            },
        ),
        None => None,
    }
}

fn or_empty(text: Option<String>) -> (r: String)
    ensures
        r@ == text_or_empty(optional(text)),
{
    match text {
        Some(text) => text,
        None => String::new(),
    }
}

fn push_reading(readings: &mut Vec<String>, value: &Json, name: &str)
    ensures
        texts(final(readings)@) == texts(old(readings)@) + readings_of(member_of(*value, name@)),
{
    let ghost before = readings@;
    match value.member(name) {
        Some(Json::Number(text, _)) => {
            readings.push(text.clone());
        },
        Some(Json::Text(text)) => {
            readings.push(text.clone());
        },
        _ => {},
    }
    assert(texts(readings@) =~= texts(before) + readings_of(member_of(*value, name@)));
}

/// Reads the task that an entry of the task list and the summary of the task
/// describe.
pub fn parse_webui_task(list: &Json, summary: &Json) -> (r: Option<ReportedTask>)
    ensures
        match r {
            Some(task) => webui_task(*list, *summary) == Some(task@),
            None => webui_task(*list, *summary) is None,
        },
{
    let nothing = Json::Null;
    let task = match summary.member("task") {
        Some(task) => task,
        None => &nothing,
    };
    let status = match summary.member("task_status") {
        Some(status) => status,
        None => &nothing,
    };
    let hash = match string_value(task, &["infohash", "info_hash"]) {
        Some(hash) => hash,
        None => match string_value(list, &["infohash", "info_hash", "task_guid"]) {
            Some(hash) => hash,
            None => {
                return None;
            },
        },
    };
    let size = u64_value(list, &["selected_size", "total_size"]);
    let done = u64_value(list, &["selected_downloaded_size", "dl_size"]);
    let left = match u64_value(status, &["size_left"]) {
        Some(left) => Some(left),
        None => match (size, done) {
            (Some(size), Some(done)) => Some(
                if size > done {
                    size - done
                } else {
                    0
                },
            ),
            _ => None,
        },
    };
    let completed = match (size, done) {
        (Some(size), Some(done)) => Some(size > 0 && done >= size),
        _ => None,
    };
    let show_name = or_empty(string_value(list, &["task_name"]));
    let save_name = match string_value(task, &["save_name", "task_name"]) {
        Some(name) => name,
        None => show_name.clone(),
    };
    let mut readings: Vec<String> = Vec::new();
    assert(texts(readings@) =~= Seq::empty());
    push_reading(&mut readings, list, "permillage");
    push_reading(&mut readings, status, "download_permillage");
    assert(texts(readings@) =~= readings_of(member_of(*list, "permillage"@)) + readings_of(
        member_of(*status, "download_permillage"@),
    ));
    Some(
        ReportedTask {
            task: BitCometTask {
                task_id: or_empty(scalar_string(list.member("task_id"))),
                info_hash: normalize_info_hash(&hash),
                finish_date: or_empty(string_value(task, &["finish_time", "finish_date"])),
                left,
                progress_percent: None,
                completed,
                status: or_empty(string_value(list, &["status"])),
                save_name,
                show_name,
                save_location: or_empty(string_value(task, &["save_folder", "save_location"])),
            },
            progress: ProgressReading::Permille(readings),
        },
    )
}

/// What is said of a request that did not succeed.
pub open spec fn error_in(value: Json) -> Seq<char> {
    let message = match given_text(value, ["error_message", "error_code"]@) {
        Some(message) => message,
        None => "BitComet WebUI 返回了无效响应"@,
    };
    if message == "action completed."@ {
        "操作已完成。"@
    } else if message == "action skipped."@ {
        "BitComet 未执行该操作。"@
    } else {
        message
    }
}

/// Says what is wrong with a request that did not succeed.
pub fn api_error(value: &Json) -> (r: String)
    ensures
        r@ == error_in(*value),
{
    let message = match string_value(value, &["error_message", "error_code"]) {
        Some(message) => message,
        None => "BitComet WebUI 返回了无效响应".to_string(),
    };
    if same_text(&message, "action completed.") {
        "操作已完成。".to_string()
    } else if same_text(&message, "action skipped.") {
        "BitComet 未执行该操作。".to_string()
    } else {
        message
    }
}

/// Whether a task is in a state that an action leads to.
pub open spec fn has_obeyed(task: Json, action: Seq<char>) -> bool {
    let status = lower(text_or_empty(given_text(task, ["status"]@)));
    if action == "stop"@ {
        status == "stopped"@
    } else if action == "start"@ {
        status == "starting"@ || status == "running"@
    } else {
        false
    }
}

/// Whether an answer says that an action has succeeded: outright, or by the
/// state of each of the tasks.
pub open spec fn has_succeeded(response: Json, action: Seq<char>) -> bool {
    ||| text_in(member_of(response, "error_code"@)) matches Some(code) && lower(code) == "ok"@
    ||| list_in(member_of(response, "tasks"@)) matches Some(tasks) && tasks.len() > 0 && forall|
        i: int,
    | 0 <= i < tasks.len() ==> has_obeyed(#[trigger] tasks[i], action)
}

fn obeyed(task: &Json, action: &str) -> (r: bool)
    ensures
        r == has_obeyed(*task, action@),
{
    let status = to_lower(&or_empty(string_value(task, &["status"])));
    if same_text(action, "stop") {
        same_text(&status, "stopped")
    } else if same_text(action, "start") {
        same_text(&status, "starting") || same_text(&status, "running")
    } else {
        false
    }
}

/// Tells whether an answer says that an action has succeeded.
pub fn control_action_succeeded(response: &Json, action: &str) -> (r: bool)
    ensures
        r == has_succeeded(*response, action@),
{
    if let Some(code) = response.member_text("error_code") {
        if same_text(&to_lower(&code), "ok") {
            return true;
        }
    }
    match response.member("tasks") {
        Some(Json::List(tasks)) => {
            let mut i: usize = 0;
            while i < tasks.len()
                invariant
                    i <= tasks@.len(),
                    list_in(member_of(*response, "tasks"@)) == Some(tasks@),
                    !(text_in(member_of(*response, "error_code"@)) matches Some(code) && lower(code)
                        == "ok"@),
                    forall|j: int| 0 <= j < i ==> has_obeyed(#[trigger] tasks@[j], action@),
                decreases tasks@.len() - i,
            {
                if !obeyed(&tasks[i], action) {
                    return false;
                }
                i += 1;
            }
            tasks.len() > 0
        },
        _ => false,
    }
}

} // verus!
