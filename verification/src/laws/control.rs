//! What is known of the tasks at a moment, and how they are controlled and
//! added.

use vstd::prelude::*;
use vstd::string::*;

use crate::bitcomet::control::{
    adding, controls, is_asked, snapshot_of, target_of, Fetched, SnapshotView,
};
use crate::bitcomet::executable::{version_fault, version_of, Executable};
use crate::bitcomet::session::{Conversation, GoalView};
use crate::bitcomet::webui::WebUiConfig;
use crate::laws::following::{has_no_task, is_first_task, law_task_is_found_by_its_hash};
use crate::laws::settings::{is_recent_bitcomet, law_recent_versions_are_supported};
use crate::laws::submission::{law_executable_is_told_by_its_name, leads_to_bitcomet};
use crate::models::{tasks_view, BitCometTask, TaskView};
use crate::text::optional;
use crate::util::PathFacts;

verus! {

/// The web interface is asked where the executable is recent enough. What it
/// reports are the tasks of the moment; where it fails, or is not asked, the
/// tasks are those that BitComet has written down, and it is told why.
pub proof fn law_tasks_are_those_of_the_moment(
    file: Executable,
    fallback: Seq<TaskView>,
    tasks: Vec<BitCometTask>,
    version: String,
    known: Option<String>,
    message: String,
    fetched: Option<Fetched>,
)
    ensures
        is_asked(file) <==> is_recent_bitcomet(file),
        is_recent_bitcomet(file) ==> snapshot_of(
            file,
            fallback,
            Some(Fetched::Tasks(tasks, version)),
        ) == (SnapshotView {
            tasks: tasks_view(tasks@),
            realtime: true,
            version: Some(version@),
            error: None,
        }),
        is_recent_bitcomet(file) ==> snapshot_of(
            file,
            fallback,
            Some(Fetched::Failed(known, message)),
        ) == (SnapshotView {
            tasks: fallback,
            realtime: false,
            version: if known is Some {
                optional(known)
            } else {
                version_of(file)
            },
            error: Some(message@),
        }),
        !leads_to_bitcomet(file.facts) ==> snapshot_of(file, fallback, fetched) == (SnapshotView {
            tasks: fallback,
            realtime: false,
            version: None,
            error: Some("BitComet 路径无效"@),
        }),
        leads_to_bitcomet(file.facts) && !is_recent_bitcomet(file) ==> snapshot_of(
            file,
            fallback,
            fetched,
        ) == (SnapshotView {
            tasks: fallback,
            realtime: false,
            version: version_of(file),
            error: version_fault(file),
        }),
{
    law_recent_versions_are_supported(file);
    law_executable_is_told_by_its_name(file.facts);
}

/// A task is controlled by its identifier, which is that of the first task with
/// its info hash, and only where the tasks are those of the moment.
pub proof fn law_task_is_controlled_by_its_identifier(
    snapshot: SnapshotView,
    info_hash: Seq<char>,
    at: int,
)
    ensures
        snapshot.realtime && is_first_task(snapshot.tasks, info_hash, at) ==> {
            &&& snapshot.tasks[at].task_id.len() > 0 ==> target_of(snapshot, info_hash) == Ok::<
                _,
                Seq<char>,
            >(snapshot.tasks[at].task_id)
            &&& snapshot.tasks[at].task_id.len() == 0 ==> target_of(snapshot, info_hash) == Err::<
                Seq<char>,
                _,
            >("BitComet 中没有找到对应任务"@)
        },
        snapshot.realtime && has_no_task(snapshot.tasks, info_hash) ==> target_of(
            snapshot,
            info_hash,
        ) == Err::<Seq<char>, _>("BitComet 中没有找到对应任务"@),
        !snapshot.realtime && snapshot.error is Some ==> target_of(snapshot, info_hash) == Err::<
            Seq<char>,
            _,
        >(snapshot.error->Some_0),
        !snapshot.realtime && snapshot.error is None ==> target_of(snapshot, info_hash) == Err::<
            Seq<char>,
            _,
        >("BitComet WebUI 未连接"@),
{
    law_task_is_found_by_its_hash(snapshot.tasks, info_hash, at);
}

/// A conversation that controls a task begins with the first port, for the task
/// and the action that were asked for, and with the credentials that were
/// found; what cannot be controlled is refused with the reason.
pub proof fn law_control_begins_for_its_task(
    r: Result<Conversation, String>,
    snapshot: SnapshotView,
    config: WebUiConfig,
    executable: Seq<char>,
    info_hash: Seq<char>,
    endpoint: Seq<char>,
    action: Seq<char>,
    task_id: Seq<char>,
    reason: Seq<char>,
)
    requires
        controls(r, snapshot, config, executable, info_hash, endpoint, action),
    ensures
        target_of(snapshot, info_hash) == Err::<Seq<char>, _>(reason) ==> r is Err && r->Err_0@
            == reason,
        target_of(snapshot, info_hash) == Ok::<_, Seq<char>>(task_id) ==> r is Ok && ({
            let talk = r->Ok_0@;
            &&& talk.goal == GoalView::Control { endpoint, task_id, action }
            &&& talk.ports == config.ports@ && talk.username == config.username@ && talk.password
                == config.password@
            &&& talk.at == 0 && !talk.bypass && !talk.renewed && talk.version is None
            &&& config.ports@.len() > 0 ==> talk.phase is Verify
            &&& config.ports@.len() == 0 ==> talk.phase is Finished
        }),
{
}

/// A torrent file is added only with an executable, a file and a folder that
/// are there; the executable is then told the file and the folder, and to keep
/// quiet.
pub proof fn law_torrents_are_added_by_file_and_folder(
    executable: PathFacts,
    torrent: PathFacts,
    folder: PathFacts,
)
    ensures
        !leads_to_bitcomet(executable) ==> adding(executable, torrent, folder) == Err::<
            Seq<Seq<char>>,
            _,
        >("BitComet executable is not valid"@),
        leads_to_bitcomet(executable) && !torrent.is_file ==> adding(executable, torrent, folder)
            == Err::<Seq<Seq<char>>, _>("Torrent file does not exist"@),
        leads_to_bitcomet(executable) && torrent.is_file && !folder.is_dir ==> adding(
            executable,
            torrent,
            folder,
        ) == Err::<Seq<Seq<char>>, _>("Download directory does not exist"@),
        leads_to_bitcomet(executable) && torrent.is_file && folder.is_dir ==> (adding(
            executable,
            torrent,
            folder,
        ) matches Ok(arguments) && arguments.len() == 4 && arguments[0] == torrent.path@
            && arguments[1] == "--output="@ + folder.path@ && arguments[2] == "--silent"@
            && arguments[3] == "--tray"@),
{
    law_executable_is_told_by_its_name(executable);
}

} // verus!
