//! What the web interface of BitComet says of a task, and of an action on it.

use vstd::prelude::*;
use vstd::string::*;

use crate::bitcomet::tasks::{ReadingView, ReportedView};
use crate::bitcomet::webui::{
    error_in, has_obeyed, has_succeeded, plain_hash, readings_of, webui_task,
};
use crate::json::{given_text, list_in, member_of, text_in, Json};
use crate::laws::values::{
    counts_by_one_of, counts_nothing, has_member, lacks_member, law_first_number_counts,
    law_first_text_counts, law_members_are_found_by_their_names, law_texts_are_read_from_members,
    member_says, says_by_one_of, says_nothing,
};
use crate::laws::words::{lemma_lower_is, lemma_lower_word, same_but_case};
use crate::text::{lower, trimmed};

verus! {

/// Whether a value is the part of another with a name, or nothing where there
/// is no such part.
pub open spec fn is_part(value: Json, name: Seq<char>, part: Json) -> bool {
    has_member(value, name, part) || (lacks_member(value, name) && part == Json::Null)
}

/// An info hash is brought into lower case, without the white space around it
/// and without the mark before it.
pub proof fn law_hashes_are_brought_into_form(text: Seq<char>, plain: Seq<char>)
    ensures
        lower(trimmed(text)) == plain && !"bt_"@.is_prefix_of(plain) ==> plain_hash(text) == plain,
        lower(trimmed(text)) == "bt_"@ + plain ==> plain_hash(text) == plain,
{
    reveal_strlit("bt_");
    if lower(trimmed(text)) == "bt_"@ + plain {
        let value = lower(trimmed(text));
        assert(value.subrange(0, 3) =~= "bt_"@);
        assert(value.skip(3) =~= plain);
    }
}

/// A task has the info hash of its summary, else that of its entry in the task
/// list; without one it is none.
pub proof fn law_reported_task_has_its_hash(
    list: Json,
    summary: Json,
    task: Json,
    hash: Seq<char>,
)
    requires
        is_part(summary, "task"@, task),
    ensures
        says_by_one_of(task, ["infohash", "info_hash"]@, hash) ==> (webui_task(
            list,
            summary,
        ) matches Some(reported) && reported.task.info_hash == plain_hash(hash)),
        says_nothing(task, ["infohash", "info_hash"]@) ==> {
            &&& says_by_one_of(list, ["infohash", "info_hash", "task_guid"]@, hash) ==> (webui_task(
                list,
                summary,
            ) matches Some(reported) && reported.task.info_hash == plain_hash(hash))
            &&& says_nothing(list, ["infohash", "info_hash", "task_guid"]@) ==> webui_task(list, summary) is None
        },
{
    law_members_are_found_by_their_names(summary, "task"@, task);
    law_first_text_counts(task, ["infohash", "info_hash"]@, hash);
    law_first_text_counts(list, ["infohash", "info_hash", "task_guid"]@, hash);
}

/// What is left of a task is what its summary says, else what is not yet
/// downloaded of what was selected. It is complete where all that was selected
/// is downloaded, and that is something.
pub proof fn law_reported_task_has_what_is_left(
    list: Json,
    summary: Json,
    status: Json,
    reported: ReportedView,
    left: u64,
    size: u64,
    done: u64,
)
    requires
        is_part(summary, "task_status"@, status),
        webui_task(list, summary) == Some(reported),
    ensures
        counts_by_one_of(status, ["size_left"]@, left) ==> reported.task.left == Some(left),
        counts_by_one_of(list, ["selected_size", "total_size"]@, size) && counts_by_one_of(
            list,
            ["selected_downloaded_size", "dl_size"]@,
            done,
        ) ==> {
            &&& reported.task.completed == Some(size > 0 && done >= size)
            &&& counts_nothing(status, ["size_left"]@)
                ==> (reported.task.left matches Some(rest) && (done <= size ==> rest == size - done)
                && (done > size ==> rest == 0))
        },
        counts_nothing(list, ["selected_size", "total_size"]@) || counts_nothing(list, ["selected_downloaded_size", "dl_size"]@) ==> {
            &&& reported.task.completed is None
            &&& counts_nothing(status, ["size_left"]@)
                ==> reported.task.left is None
        },
{
    law_members_are_found_by_their_names(summary, "task_status"@, status);
    law_first_number_counts(status, ["size_left"]@, left);
    law_first_number_counts(list, ["selected_size", "total_size"]@, size);
    law_first_number_counts(list, ["selected_downloaded_size", "dl_size"]@, done);
}

/// A task has its status and its shown name from the task list, the place and
/// the date of its end from its summary, and the name under which it saves from
/// its summary, else the shown one. What is not said is empty.
pub proof fn law_reported_task_has_what_is_said(
    list: Json,
    summary: Json,
    task: Json,
    reported: ReportedView,
    text: Seq<char>,
)
    requires
        is_part(summary, "task"@, task),
        webui_task(list, summary) == Some(reported),
    ensures
        says_by_one_of(list, ["status"]@, text) ==> reported.task.status == text,
        says_by_one_of(list, ["task_name"]@, text) ==> reported.task.show_name == text,
        says_by_one_of(task, ["save_folder", "save_location"]@, text)
            ==> reported.task.save_location == text,
        says_by_one_of(task, ["finish_time", "finish_date"]@, text) ==> reported.task.finish_date
            == text,
        says_by_one_of(task, ["save_name", "task_name"]@, text) ==> reported.task.save_name
            == text,
        says_nothing(task, ["save_name", "task_name"]@)
            ==> reported.task.save_name == reported.task.show_name,
        reported.task.status.len() > 0 ==> says_by_one_of(
            list,
            ["status"]@,
            reported.task.status,
        ),
        reported.task.show_name.len() > 0 ==> says_by_one_of(
            list,
            ["task_name"]@,
            reported.task.show_name,
        ),
        reported.task.save_location.len() > 0 ==> says_by_one_of(
            task,
            ["save_folder", "save_location"]@,
            reported.task.save_location,
        ),
        reported.task.finish_date.len() > 0 ==> says_by_one_of(
            task,
            ["finish_time", "finish_date"]@,
            reported.task.finish_date,
        ),
        reported.task.progress_percent is None,
{
    law_members_are_found_by_their_names(summary, "task"@, task);
    law_first_text_counts(list, ["status"]@, text);
    law_first_text_counts(list, ["task_name"]@, text);
    law_first_text_counts(task, ["save_folder", "save_location"]@, text);
    law_first_text_counts(task, ["finish_time", "finish_date"]@, text);
    law_first_text_counts(task, ["save_name", "task_name"]@, text);
    law_first_text_counts(list, ["status"]@, reported.task.status);
    law_first_text_counts(list, ["task_name"]@, reported.task.show_name);
    law_first_text_counts(task, ["save_folder", "save_location"]@, reported.task.save_location);
    law_first_text_counts(task, ["finish_time", "finish_date"]@, reported.task.finish_date);
}

/// A task has the identifier of its entry in the task list, be it a number or a
/// text, and is as far as the entry says in thousandths, else as its summary
/// does.
pub proof fn law_reported_task_has_its_identifier_and_progress(
    list: Json,
    summary: Json,
    status: Json,
    reported: ReportedView,
    text: String,
    whole: Option<u64>,
)
    requires
        is_part(summary, "task_status"@, status),
        webui_task(list, summary) == Some(reported),
    ensures
        has_member(list, "task_id"@, Json::Number(text, whole)) ==> reported.task.task_id == text@,
        has_member(list, "task_id"@, Json::Text(text)) ==> reported.task.task_id == text@,
        lacks_member(list, "task_id"@) ==> reported.task.task_id.len() == 0,
        has_member(list, "permillage"@, Json::Number(text, whole)) ==> (
        reported.progress matches ReadingView::Permille(readings) && readings.len() > 0
            && readings[0] == text@),
        lacks_member(list, "permillage"@) && has_member(
            status,
            "download_permillage"@,
            Json::Number(text, whole),
        ) ==> reported.progress == ReadingView::Permille(seq![text@]),
        lacks_member(list, "permillage"@) && lacks_member(status, "download_permillage"@)
            ==> reported.progress == ReadingView::Permille(Seq::empty()),
{
    law_members_are_found_by_their_names(summary, "task_status"@, status);
    law_members_are_found_by_their_names(list, "task_id"@, Json::Number(text, whole));
    law_members_are_found_by_their_names(list, "task_id"@, Json::Text(text));
    law_members_are_found_by_their_names(list, "permillage"@, Json::Number(text, whole));
    law_members_are_found_by_their_names(
        status,
        "download_permillage"@,
        Json::Number(text, whole),
    );
    if has_member(list, "task_id"@, Json::Text(text)) && text@.len() == 0 {
        assert(text@ =~= Seq::empty());
    }
    if lacks_member(list, "permillage"@) {
        if let ReadingView::Permille(readings) = reported.progress {
            assert(readings =~= readings_of(
                member_of(status, "download_permillage"@),
            ));
        }
    }
}

/// Whether a task says that it has done what an action asks for.
pub open spec fn obeys(task: Json, action: Seq<char>) -> bool {
    status_obeys(task, ["status"]@, action)
}

/// Whether what a task says under one of several names is what an action asks
/// for.
pub open spec fn status_obeys(task: Json, names: Seq<&str>, action: Seq<char>) -> bool {
    exists|status: Seq<char>| #[trigger]
        says_by_one_of(task, names, status) && ({
            ||| action == "stop"@ && same_but_case(status, "stopped"@)
            ||| action == "start"@ && (same_but_case(status, "starting"@) || same_but_case(
                status,
                "running"@,
            ))
        })
}

proof fn lemma_obeys(task: Json, action: Seq<char>)
    ensures
        has_obeyed(task, action) <==> obeys(task, action),
{
    reveal_strlit("stop");
    reveal_strlit("start");
    reveal_strlit("stopped");
    reveal_strlit("starting");
    reveal_strlit("running");
    assert("stop"@.len() != "start"@.len());
    lemma_lower_word("stopped"@);
    lemma_lower_word("starting"@);
    lemma_lower_word("running"@);
    assert(lower(Seq::<char>::empty()) =~= Seq::<char>::empty());
    let names = ["status"]@;
    law_first_text_counts(task, names, Seq::empty());
    if let Some(status) = given_text(task, ["status"]@) {
        law_first_text_counts(task, ["status"]@, status);
        lemma_lower_is(status, "stopped"@);
        lemma_lower_is(status, "starting"@);
        lemma_lower_is(status, "running"@);
    }
    lemma_status_obeys(task, names, action);
}

proof fn lemma_status_obeys(task: Json, names: Seq<&str>, action: Seq<char>)
    ensures
        status_obeys(task, names, action) <==> (given_text(
            task,
            names,
        ) matches Some(status) && ({
            ||| action == "stop"@ && same_but_case(status, "stopped"@)
            ||| action == "start"@ && (same_but_case(status, "starting"@) || same_but_case(
                status,
                "running"@,
            ))
        })),
{
    if status_obeys(task, names, action) {
        let status = choose|status: Seq<char>| #[trigger]
            says_by_one_of(task, names, status) && ({
                ||| action == "stop"@ && same_but_case(status, "stopped"@)
                ||| action == "start"@ && (same_but_case(status, "starting"@) || same_but_case(
                    status,
                    "running"@,
                ))
            });
        law_first_text_counts(task, names, status);
    }
    if let Some(status) = given_text(task, names) {
        law_first_text_counts(task, names, status);
    }
}

/// An action has succeeded where the answer says `ok`, in any case of its
/// letters, or where each of the tasks that it lists, at least one, has done
/// what was asked; and nowhere else.
pub proof fn law_actions_succeed_by_word_or_deed(response: Json, action: Seq<char>)
    ensures
        has_succeeded(response, action) <==> ({
            ||| exists|code: Seq<char>| #[trigger]
                member_says(response, "error_code"@, code) && same_but_case(code, "ok"@)
            ||| exists|tasks: Vec<Json>| #[trigger]
                has_member(response, "tasks"@, Json::List(tasks)) && tasks@.len() > 0 && (forall|
                    i: int,
                |
                    0 <= i < tasks@.len() ==> obeys(#[trigger] tasks@[i], action))
        }),
{
    reveal_strlit("ok");
    lemma_lower_word("ok"@);
    if let Some(code) = text_in(member_of(response, "error_code"@)) {
        law_texts_are_read_from_members(response, "error_code"@, code);
        lemma_lower_is(code, "ok"@);
    }
    if exists|code: Seq<char>| #[trigger]
        member_says(response, "error_code"@, code) && same_but_case(code, "ok"@) {
        let code = choose|code: Seq<char>| #[trigger]
            member_says(response, "error_code"@, code) && same_but_case(code, "ok"@);
        law_texts_are_read_from_members(response, "error_code"@, code);
    }
    if let Some(Json::List(tasks)) = member_of(response, "tasks"@) {
        law_members_are_found_by_their_names(response, "tasks"@, Json::List(tasks));
        assert forall|i: int| 0 <= i < tasks@.len() implies (obeys(#[trigger] tasks@[i], action)
            <==> has_obeyed(tasks@[i], action)) by {
            lemma_obeys(tasks@[i], action);
        }
        if has_succeeded(response, action) && list_in(member_of(response, "tasks"@)) is Some {
            assert(has_member(response, "tasks"@, Json::List(tasks)));
        }
    }
    if exists|tasks: Vec<Json>| #[trigger]
        has_member(response, "tasks"@, Json::List(tasks)) && tasks@.len() > 0 && (forall|i: int|
            0 <= i < tasks@.len() ==> obeys(#[trigger] tasks@[i], action)) {
        let tasks = choose|tasks: Vec<Json>| #[trigger]
            has_member(response, "tasks"@, Json::List(tasks)) && tasks@.len() > 0 && (forall|
                i: int,
            |
                0 <= i < tasks@.len() ==> obeys(#[trigger] tasks@[i], action));
        law_members_are_found_by_their_names(response, "tasks"@, Json::List(tasks));
        assert forall|i: int| 0 <= i < tasks@.len() implies has_obeyed(
            #[trigger] tasks@[i],
            action,
        ) by {
            lemma_obeys(tasks@[i], action);
        }
    }
}

/// What went wrong is told as the answer says it, by its message before its
/// code; two of the messages are told in other words.
pub proof fn law_errors_are_told_as_they_are(value: Json, message: Seq<char>)
    ensures
        says_by_one_of(value, ["error_message", "error_code"]@, message) && message
            != "action completed."@ && message != "action skipped."@ ==> error_in(value) == message,
        says_by_one_of(value, ["error_message", "error_code"]@, "action skipped."@) ==> error_in(
            value,
        ) == "BitComet 未执行该操作。"@,
        says_by_one_of(value, ["error_message", "error_code"]@, "action completed."@) ==> error_in(
            value,
        ) == "操作已完成。"@,
        says_nothing(value, ["error_message", "error_code"]@)
            ==> error_in(value) == "BitComet WebUI 返回了无效响应"@,
{
    reveal_strlit("action completed.");
    reveal_strlit("action skipped.");
    reveal_strlit("BitComet WebUI 返回了无效响应");
    assert("action completed."@.len() == 17);
    assert("action skipped."@.len() == 15);
    assert("BitComet WebUI 返回了无效响应"@.len() == 22);
    law_first_text_counts(value, ["error_message", "error_code"]@, message);
    law_first_text_counts(value, ["error_message", "error_code"]@, "action skipped."@);
    law_first_text_counts(value, ["error_message", "error_code"]@, "action completed."@);
}

} // verus!
