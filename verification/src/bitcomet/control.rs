//! What is done with BitComet: the tasks as they stand, and starting,
//! stopping, deleting and adding them.

use vstd::prelude::*;
use vstd::string::*;

use crate::bitcomet::executable::{
    is_executable, names_bitcomet, version, version_fault, version_of, version_requirement_error,
    Executable,
};
use crate::bitcomet::login::device_id_of;
use crate::bitcomet::session::{Conversation, ConversationView, GoalView, PhaseView};
use crate::bitcomet::webui::WebUiConfig;
use crate::models::{tasks_view, BitCometTask, TaskView};
use crate::text::{joined, lower, optional, same_ignoring_case, texts};
use crate::util::PathFacts;

verus! {

/// The tasks as they stand: those of the web interface, or, where it cannot
/// be asked, those that BitComet has written down.
#[derive(Debug)]
pub struct TaskSnapshot {
    pub tasks: Vec<BitCometTask>,
    pub realtime: bool,
    pub version: Option<String>,
    pub error: Option<String>,
}

/// The contents of a `TaskSnapshot`.
pub struct SnapshotView {
    pub tasks: Seq<TaskView>,
    pub realtime: bool,
    pub version: Option<Seq<char>>,
    pub error: Option<Seq<char>>,
}

impl View for TaskSnapshot {
    type V = SnapshotView;

    open spec fn view(&self) -> SnapshotView {
        SnapshotView {
            tasks: tasks_view(self.tasks@),
            realtime: self.realtime,
            version: optional(self.version),
            error: optional(self.error),
        }
    }
}

impl Default for TaskSnapshot {
    fn default() -> (r: Self)
        ensures
            r@ == (SnapshotView {
                tasks: Seq::empty(),
                realtime: false,
                version: None,
                error: None,
            }),
    {
        let snapshot = TaskSnapshot {
            tasks: Vec::new(),
            realtime: false,
            version: None,
            error: None,
        };
        assert(tasks_view(snapshot.tasks@) =~= Seq::empty());
        snapshot
    }
}

/// What came of asking the web interface: the tasks and the version, or a
/// message and the version as far as it is known.
#[derive(Debug)]
pub enum Fetched {
    Tasks(Vec<BitCometTask>, String),
    Failed(Option<String>, String),
}

/// Whether the web interface of an executable is asked.
pub open spec fn is_asked(file: Executable) -> bool {
    names_bitcomet(file.facts) && version_fault(file) is None
}

/// Tells whether the web interface of an executable is asked.
pub fn asks_webui(file: &Executable) -> (r: bool)
    ensures
        r == is_asked(*file),
{
    is_executable(&file.facts) && version_requirement_error(file).is_none()
}

/// The tasks as they stand, given what came of asking the web interface, if
/// it was asked.
pub open spec fn snapshot_of(
    file: Executable,
    fallback: Seq<TaskView>,
    fetched: Option<Fetched>,
) -> SnapshotView {
    if !names_bitcomet(file.facts) {
        SnapshotView {
            tasks: fallback,
            realtime: false,
            version: None,
            error: Some("BitComet 路径无效"@),
        }
    } else if version_fault(file) is Some {
        SnapshotView {
            tasks: fallback,
            realtime: false,
            version: version_of(file),
            error: version_fault(file),
        }
    } else {
        match fetched {
            Some(Fetched::Tasks(tasks, version)) => SnapshotView {
                tasks: tasks_view(tasks@),
                realtime: true,
                version: Some(version@),
                error: None,
            },
            Some(Fetched::Failed(version, message)) => SnapshotView {
                tasks: fallback,
                realtime: false,
                version: match optional(version) {
                    Some(version) => Some(version),
                    None => version_of(file),
                },
                error: Some(message@),
            },
            None => SnapshotView {
                tasks: fallback,
                realtime: false,
                version: version_of(file),
                error: None,
            },
        }
    }
}

/// Puts together the tasks as they stand.
pub fn task_snapshot(
    file: &Executable,
    fallback: Vec<BitCometTask>,
    fetched: Option<Fetched>,
) -> (r: TaskSnapshot)
    requires
        is_asked(*file) ==> fetched is Some,
    ensures
        r@ == snapshot_of(*file, tasks_view(fallback@), fetched),
{
    if !is_executable(&file.facts) {
        return TaskSnapshot {
            tasks: fallback,
            realtime: false,
            version: None,
            error: Some("BitComet 路径无效".to_string()),
        };
    }
    if let Some(error) = version_requirement_error(file) {
        return TaskSnapshot {
            tasks: fallback,
            realtime: false,
            version: version(file),
            error: Some(error),
        };
    }
    match fetched {
        Some(Fetched::Tasks(tasks, version)) => TaskSnapshot {
            tasks,
            realtime: true,
            version: Some(version),
            error: None,
        },
        Some(Fetched::Failed(reported, message)) => TaskSnapshot {
            tasks: fallback,
            realtime: false,
            version: match reported {
                Some(reported) => Some(reported),
                None => version(file),
            },
            error: Some(message),
        },
        None => TaskSnapshot {
            tasks: fallback,
            realtime: false,
            version: version(file),
            error: None,
        },
    }
}

/// The tasks are of the moment exactly where nothing went wrong.
pub proof fn law_realtime_iff_no_error(
    file: Executable,
    fallback: Seq<TaskView>,
    fetched: Option<Fetched>,
)
    requires
        is_asked(file) ==> fetched is Some,
    ensures
        snapshot_of(file, fallback, fetched).realtime <==> snapshot_of(
            file,
            fallback,
            fetched,
        ).error is None,
{
}

/// The first task with an info hash, but for the case of letters, from one
/// on, or the number of tasks.
pub open spec fn find_task(tasks: Seq<TaskView>, info_hash: Seq<char>, from: int) -> int
    decreases tasks.len() - from,
{
    if from < 0 || from >= tasks.len() {
        tasks.len() as int
    } else if lower(tasks[from].info_hash) == lower(info_hash) {
        from
    } else {
        find_task(tasks, info_hash, from + 1)
    }
}

/// Finds the first task with an info hash.
pub fn first_task(tasks: &Vec<BitCometTask>, info_hash: &str) -> (r: Option<usize>)
    ensures
        match r {
            Some(at) => at < tasks@.len() && find_task(tasks_view(tasks@), info_hash@, 0) == at,
            None => find_task(tasks_view(tasks@), info_hash@, 0) == tasks@.len(),
        },
{
    let mut i: usize = 0;
    while i < tasks.len()
        invariant
            i <= tasks@.len(),
            find_task(tasks_view(tasks@), info_hash@, 0) == find_task(
                tasks_view(tasks@),
                info_hash@,
                i as int,
            ),
        decreases tasks@.len() - i,
    {
        if same_ignoring_case(&tasks[i].info_hash, info_hash) {
            return Some(i);
        }
        i += 1;
    }
    None
}

/// The identifier of the task with an info hash, or why there is none.
pub open spec fn target_of(snapshot: SnapshotView, info_hash: Seq<char>) -> Result<
    Seq<char>,
    Seq<char>,
> {
    let at = find_task(snapshot.tasks, info_hash, 0);
    if !snapshot.realtime {
        Err(
            match snapshot.error {
                Some(error) => error,
                None => "BitComet WebUI 未连接"@,
            },
        )
    } else if at < snapshot.tasks.len() && snapshot.tasks[at].task_id.len() > 0 {
        Ok(snapshot.tasks[at].task_id)
    } else {
        Err("BitComet 中没有找到对应任务"@)
    }
}

/// A conversation that lets a task do something, at its beginning.
pub open spec fn control_begins(
    config: WebUiConfig,
    executable: Seq<char>,
    endpoint: Seq<char>,
    task_id: Seq<char>,
    action: Seq<char>,
) -> ConversationView {
    (ConversationView {
        goal: GoalView::Control { endpoint, task_id, action },
        ports: config.ports@,
        username: config.username@,
        password: config.password@,
        device_id: device_id_of(executable),
        at: 0,
        bypass: false,
        renewed: false,
        version: None,
        phase: PhaseView::Verify,
    }).verifying()
}

/// Whether a conversation was begun for the task with an info hash, or is
/// refused for the right reason.
pub open spec fn controls(
    r: Result<Conversation, String>,
    snapshot: SnapshotView,
    config: WebUiConfig,
    executable: Seq<char>,
    info_hash: Seq<char>,
    endpoint: Seq<char>,
    action: Seq<char>,
) -> bool {
    match (r, target_of(snapshot, info_hash)) {
        (Ok(talk), Ok(task_id)) => talk@.wf() && talk@ == control_begins(
            config,
            executable,
            endpoint,
            task_id,
            action,
        ),
        (Err(message), Err(reason)) => message@ == reason,
        _ => false,
    }
}

/// Begins a conversation that lets the task with an info hash do something.
pub fn control_task(
    snapshot: &TaskSnapshot,
    config: WebUiConfig,
    executable: &str,
    info_hash: &str,
    endpoint: &str,
    action: &str,
) -> (r: Result<Conversation, String>)
    ensures
        controls(r, snapshot@, config, executable@, info_hash@, endpoint@, action@),
{
    if !snapshot.realtime {
        return Err(
            match &snapshot.error {
                Some(error) => error.clone(),
                None => "BitComet WebUI 未连接".to_string(),
            },
        );
    }
    if let Some(at) = first_task(&snapshot.tasks, info_hash) {
        let task_id = snapshot.tasks[at].task_id.clone();
        if !task_id.as_str().is_empty() {
            return Ok(Conversation::control(config, executable, endpoint, task_id, action));
        }
    }
    Err("BitComet 中没有找到对应任务".to_string())
}

/// Begins a conversation that stops a task.
pub fn pause_task(
    snapshot: &TaskSnapshot,
    config: WebUiConfig,
    executable: &str,
    info_hash: &str,
) -> (r: Result<Conversation, String>)
    ensures
        controls(
            r,
            snapshot@,
            config,
            executable@,
            info_hash@,
            "/api_v2/tasks/action"@,
            "stop"@,
        ),
{
    control_task(snapshot, config, executable, info_hash, "/api_v2/tasks/action", "stop")
}

/// Begins a conversation that starts a task.
pub fn resume_task(
    snapshot: &TaskSnapshot,
    config: WebUiConfig,
    executable: &str,
    info_hash: &str,
) -> (r: Result<Conversation, String>)
    ensures
        controls(
            r,
            snapshot@,
            config,
            executable@,
            info_hash@,
            "/api_v2/tasks/action"@,
            "start"@,
        ),
{
    control_task(snapshot, config, executable, info_hash, "/api_v2/tasks/action", "start")
}

/// Begins a conversation that deletes a task and its files.
pub fn delete_task_and_files(
    snapshot: &TaskSnapshot,
    config: WebUiConfig,
    executable: &str,
    info_hash: &str,
) -> (r: Result<Conversation, String>)
    ensures
        controls(
            r,
            snapshot@,
            config,
            executable@,
            info_hash@,
            "/api_v2/tasks/delete"@,
            "delete_all"@,
        ),
{
    control_task(snapshot, config, executable, info_hash, "/api_v2/tasks/delete", "delete_all")
}

/// How BitComet is started to add a torrent file, or why it is not.
pub open spec fn adding(
    executable: PathFacts,
    torrent: PathFacts,
    download_dir: PathFacts,
) -> Result<Seq<Seq<char>>, Seq<char>> {
    if !names_bitcomet(executable) {
        Err("BitComet executable is not valid"@)
    } else if !torrent.is_file {
        Err("Torrent file does not exist"@)
    } else if !download_dir.is_dir {
        Err("Download directory does not exist"@)
    } else {
        Ok(
            seq![
                torrent.path@,
                "--output="@ + download_dir.path@,
                "--silent"@,
                "--tray"@,
            ],
        )
    }
}

/// Works out the arguments with which BitComet is started to add a torrent
/// file.
pub fn add_torrent(
    executable: &PathFacts,
    torrent: &PathFacts,
    download_dir: &PathFacts,
) -> (r: Result<Vec<String>, String>)
    ensures
        match r {
            Ok(arguments) => adding(*executable, *torrent, *download_dir) == Ok::<_, Seq<char>>(
                texts(arguments@),
            ),
            Err(message) => adding(*executable, *torrent, *download_dir) == Err::<
                Seq<Seq<char>>,
                _,
            >(message@),
        },
{
    if !is_executable(executable) {
        return Err("BitComet executable is not valid".to_string());
    }
    if !torrent.is_file {
        return Err("Torrent file does not exist".to_string());
    }
    if !download_dir.is_dir {
        return Err("Download directory does not exist".to_string());
    }
    let arguments = vec![
        torrent.path.clone(),
        joined("--output=", &download_dir.path),
        "--silent".to_string(),
        "--tray".to_string(),
    ];
    assert(texts(arguments@) =~= seq![
        torrent.path@,
        "--output="@ + download_dir.path@,
        "--silent"@,
        "--tray"@,
    ]);
    Ok(arguments)
}

} // verus!
