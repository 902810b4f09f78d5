//! What becomes of an item, as its task and its files say.

use vstd::prelude::*;
use vstd::string::*;

use crate::bitcomet::control::find_task;
use crate::laws::words::{
    law_lower_case_tells_the_same_texts, law_words_are_found_in_any_case, lemma_lower_is,
    lemma_lower_word, same_but_case, stands_but_case,
};
use crate::models::{ItemStatus, ItemView, TaskView};
use crate::service::completion::{
    all_looked_after, any_changed, is_changed, is_finished, looked_after, Presence,
};
use crate::text::{contains_text, lower, trimmed};

verus! {

/// Whether a task is the first with an info hash, in any case of its letters.
pub open spec fn is_first_task(tasks: Seq<TaskView>, info_hash: Seq<char>, at: int) -> bool {
    &&& 0 <= at < tasks.len()
    &&& same_but_case(tasks[at].info_hash, info_hash)
    &&& forall|j: int|
        0 <= j < at ==> !same_but_case((#[trigger] tasks[j]).info_hash, info_hash)
}

/// Whether no task has an info hash, in any case of its letters.
pub open spec fn has_no_task(tasks: Seq<TaskView>, info_hash: Seq<char>) -> bool {
    forall|j: int|
        0 <= j < tasks.len() ==> !same_but_case((#[trigger] tasks[j]).info_hash, info_hash)
}

proof fn lemma_find_task(tasks: Seq<TaskView>, info_hash: Seq<char>, from: int)
    requires
        0 <= from <= tasks.len(),
    ensures
        from <= find_task(tasks, info_hash, from) <= tasks.len(),
        find_task(tasks, info_hash, from) < tasks.len() ==> same_but_case(
            tasks[find_task(tasks, info_hash, from)].info_hash,
            info_hash,
        ),
        forall|j: int|
            from <= j < find_task(tasks, info_hash, from) ==> !same_but_case(
                (#[trigger] tasks[j]).info_hash,
                info_hash,
            ),
    decreases tasks.len() - from,
{
    if from < tasks.len() {
        law_lower_case_tells_the_same_texts(tasks[from].info_hash, info_hash);
        if !same_but_case(tasks[from].info_hash, info_hash) {
            lemma_find_task(tasks, info_hash, from + 1);
        }
    }
}

/// The task of an info hash is the first that has it, in any case of its
/// letters.
pub proof fn law_task_is_found_by_its_hash(tasks: Seq<TaskView>, info_hash: Seq<char>, at: int)
    ensures
        is_first_task(tasks, info_hash, at) <==> find_task(tasks, info_hash, 0) == at && 0 <= at
            < tasks.len(),
        has_no_task(tasks, info_hash) <==> find_task(tasks, info_hash, 0) == tasks.len(),
{
    lemma_find_task(tasks, info_hash, 0);
    let found = find_task(tasks, info_hash, 0);
    if is_first_task(tasks, info_hash, at) {
        if found < at {
            assert(!same_but_case(tasks[found].info_hash, info_hash));
        }
    }
    if has_no_task(tasks, info_hash) && found < tasks.len() {
        assert(!same_but_case(tasks[found].info_hash, info_hash));
    }
}

/// Whether a word is one of those for a task that is finished, in any case of
/// its letters.
pub open spec fn says_finished(word: Seq<char>) -> bool {
    same_but_case(word, "completed"@) || same_but_case(word, "complete"@) || same_but_case(
        word,
        "finished"@,
    ) || same_but_case(word, "seeding"@)
}

/// A task is finished where it has a date of its end, nothing is left, it says
/// so itself, its percentage is at least 99.999, or its status, without the
/// white space around it, is a word that says so; and nowhere else.
pub proof fn law_finished_tasks(task: TaskView)
    ensures
        is_finished(task) <==> (task.finish_date.len() > 0 || task.left == Some(0u64)
            || task.completed == Some(true) || (task.progress_percent matches Some(bits)
            && 0x4058_ffef_9db2_2d0e <= bits <= 0x7ff0_0000_0000_0000) || says_finished(
            trimmed(task.status),
        )),
{
    reveal_strlit("completed");
    reveal_strlit("complete");
    reveal_strlit("finished");
    reveal_strlit("seeding");
    lemma_lower_word("completed"@);
    lemma_lower_word("complete"@);
    lemma_lower_word("finished"@);
    lemma_lower_word("seeding"@);
    let word = trimmed(task.status);
    lemma_lower_is(word, "completed"@);
    lemma_lower_is(word, "complete"@);
    lemma_lower_is(word, "finished"@);
    lemma_lower_is(word, "seeding"@);
}

/// Whether a task says that it is stopped.
pub open spec fn says_stopped(task: TaskView) -> bool {
    exists|at: int| stands_but_case(task.status, "stopped"@, at)
}

/// The name under which a task saves, if it gives one: its own for that, else
/// the one that it shows.
pub open spec fn is_name_of(task: TaskView, name: Seq<char>) -> bool {
    &&& name.len() > 0
    &&& task.save_name.len() > 0 ==> name == task.save_name
    &&& task.save_name.len() == 0 ==> name == task.show_name
}

/// Whether an item is one whose task counts: it is neither deleted nor ignored,
/// and not completed with its files gone.
pub open spec fn is_followed(item: ItemView, presence: Presence) -> bool {
    &&& item.status != ItemStatus::Deleted
    &&& item.status != ItemStatus::Ignored
    &&& !(item.status == ItemStatus::Completed && presence.before == Some(false))
}

/// An item whose task is finished is completed, in whatever status it was, or
/// deleted where its files are known to be missing. It has no error any more,
/// it keeps the time of its first completion, and the change is to be saved.
pub proof fn law_finished_task_completes_its_item(
    item: ItemView,
    info_hash: Seq<char>,
    tasks: Seq<TaskView>,
    at: int,
    presence: Presence,
    now: Seq<char>,
)
    requires
        is_followed(item, presence),
        item.info_hash == Some(info_hash),
        is_first_task(tasks, info_hash, at),
        is_finished(tasks[at]),
    ensures
        ({
            let after = looked_after(item, tasks, presence, now);
            &&& presence.after == Some(false) ==> after.status == ItemStatus::Deleted
            &&& presence.after != Some(false) ==> after.status == ItemStatus::Completed
            &&& after.completed_at == if item.completed_at is Some {
                item.completed_at
            } else {
                Some(now)
            }
            &&& after.updated_at == now
            &&& after.last_error is None
            &&& is_changed(item, tasks, presence)
        }),
{
    law_task_is_found_by_its_hash(tasks, info_hash, at);
}

/// An item whose task is stopped and not finished is paused.
pub proof fn law_stopped_task_pauses_its_item(
    item: ItemView,
    info_hash: Seq<char>,
    tasks: Seq<TaskView>,
    at: int,
    presence: Presence,
    now: Seq<char>,
)
    requires
        is_followed(item, presence),
        item.info_hash == Some(info_hash),
        is_first_task(tasks, info_hash, at),
        !is_finished(tasks[at]),
        says_stopped(tasks[at]),
    ensures
        ({
            let after = looked_after(item, tasks, presence, now);
            &&& after.status == ItemStatus::Paused
            &&& after.completed_at == item.completed_at
            &&& after.last_error == item.last_error
            &&& item.status != ItemStatus::Paused ==> after.updated_at == now && is_changed(
                item,
                tasks,
                presence,
            )
            &&& item.status == ItemStatus::Paused ==> after.updated_at == item.updated_at
            &&& after == item ==> !is_changed(item, tasks, presence)
        }),
{
    law_task_is_found_by_its_hash(tasks, info_hash, at);
    lemma_stopped(tasks[at]);
}

proof fn lemma_stopped(task: TaskView)
    ensures
        contains_text(lower(task.status), "stopped"@) <==> says_stopped(
            task,
        ),
{
    reveal_strlit("stopped");
    lemma_lower_word("stopped"@);
    law_words_are_found_in_any_case(task.status, "stopped"@);
}

/// An item whose task is neither finished nor stopped keeps its status, its
/// times and its error.
pub proof fn law_running_task_leaves_the_status(
    item: ItemView,
    info_hash: Seq<char>,
    tasks: Seq<TaskView>,
    at: int,
    presence: Presence,
    now: Seq<char>,
)
    requires
        is_followed(item, presence),
        item.info_hash == Some(info_hash),
        is_first_task(tasks, info_hash, at),
        !is_finished(tasks[at]),
        !says_stopped(tasks[at]),
    ensures
        ({
            let after = looked_after(item, tasks, presence, now);
            &&& after == (ItemView {
                save_name: after.save_name,
                save_location: after.save_location,
                ..item
            })
            &&& after == item ==> !is_changed(item, tasks, presence)
        }),
{
    law_task_is_found_by_its_hash(tasks, info_hash, at);
    lemma_stopped(tasks[at]);
}

/// An item takes over the name and the place that its task gives, and keeps
/// its own where the task gives none. Where that changes one of them, the
/// change is to be saved.
pub proof fn law_item_takes_name_and_place_of_its_task(
    item: ItemView,
    info_hash: Seq<char>,
    tasks: Seq<TaskView>,
    at: int,
    presence: Presence,
    now: Seq<char>,
)
    requires
        is_followed(item, presence),
        item.info_hash == Some(info_hash),
        is_first_task(tasks, info_hash, at),
    ensures
        ({
            let after = looked_after(item, tasks, presence, now);
            let task = tasks[at];
            &&& forall|name: Seq<char>|
                is_name_of(task, name) ==> after.save_name == Some(name)
            &&& task.save_name.len() == 0 && task.show_name.len() == 0 ==> after.save_name
                == item.save_name
            &&& task.save_location.len() > 0 ==> after.save_location == Some(task.save_location)
            &&& task.save_location.len() == 0 ==> after.save_location == item.save_location
            &&& after.save_name != item.save_name || after.save_location != item.save_location
                ==> is_changed(item, tasks, presence)
        }),
{
    law_task_is_found_by_its_hash(tasks, info_hash, at);
}

/// A completed item whose files are gone is deleted, with nothing else changed
/// but its time; and the change is to be saved.
pub proof fn law_completed_item_without_files_is_deleted(
    item: ItemView,
    tasks: Seq<TaskView>,
    presence: Presence,
    now: Seq<char>,
)
    requires
        item.status == ItemStatus::Completed,
        presence.before == Some(false),
    ensures
        looked_after(item, tasks, presence, now) == (ItemView {
            status: ItemStatus::Deleted,
            updated_at: now,
            ..item
        }),
        is_changed(item, tasks, presence),
{
}

/// An item that no task has, or that has no info hash, stays as it is, as does
/// one that is deleted or ignored, and nothing is to be saved for it.
pub proof fn law_item_without_a_task_stays(
    item: ItemView,
    tasks: Seq<TaskView>,
    presence: Presence,
    now: Seq<char>,
)
    requires
        !(item.status == ItemStatus::Completed && presence.before == Some(false)),
        item.status == ItemStatus::Deleted || item.status == ItemStatus::Ignored
            || item.info_hash is None || has_no_task(tasks, item.info_hash->Some_0),
    ensures
        looked_after(item, tasks, presence, now) == item,
        !is_changed(item, tasks, presence),
{
    if let Some(info_hash) = item.info_hash {
        law_task_is_found_by_its_hash(tasks, info_hash, 0);
    }
}

/// All items are looked after, each in its place and with its own files, and
/// the state is to be saved where something has become of any of them.
pub proof fn law_every_item_is_looked_after(
    items: Seq<ItemView>,
    tasks: Seq<TaskView>,
    presence: Seq<Presence>,
    now: Seq<char>,
    at: int,
)
    requires
        presence.len() == items.len(),
        0 <= at < items.len(),
    ensures
        all_looked_after(items, tasks, presence, now).len() == items.len(),
        all_looked_after(items, tasks, presence, now)[at] == looked_after(
            items[at],
            tasks,
            presence[at],
            now,
        ),
        all_looked_after(items, tasks, presence, now)[at] != items[at] ==> any_changed(
            items,
            tasks,
            presence,
        ),
        is_changed(items[at], tasks, presence[at]) ==> any_changed(items, tasks, presence),
        (forall|i: int|
            0 <= i < items.len() ==> !#[trigger] is_changed(items[i], tasks, presence[i]))
            ==> !any_changed(items, tasks, presence),
{
    if looked_after(items[at], tasks, presence[at], now) != items[at] {
        assert(is_changed(items[at], tasks, presence[at]));
    }
}

} // verus!
