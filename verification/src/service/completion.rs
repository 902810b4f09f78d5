//! What becomes of submitted items: which of them are finished, stopped or
//! gone, as their tasks and their files say.

use vstd::prelude::*;
use vstd::string::*;

use crate::bitcomet::control::{find_task, first_task};
use crate::clock::Moment;
use crate::models::{
    items_view, tasks_view, BitCometTask, FeedItem, ItemStatus, ItemView, TaskView,
};
use crate::outside::{rfc3339_text_of, same_text};
use crate::service::state::Service;
use crate::text::{contains, contains_text, lower, to_lower, trim, trimmed};

verus! {

/// The bits of 99.999 as a double-precision number.
pub const NEARLY_DONE_BITS: u64 = 0x4058_ffef_9db2_2d0e;

/// The bits of infinity as a double-precision number. Those above it stand
/// for negative numbers, or for no number.
pub const INFINITY_BITS: u64 = 0x7ff0_0000_0000_0000;

/// Whether the bits of a percentage are those of 99.999 or more.
pub open spec fn is_nearly_done(bits: u64) -> bool {
    NEARLY_DONE_BITS <= bits <= INFINITY_BITS
}

/// Whether a word says that a task is finished.
pub open spec fn is_finished_word(status: Seq<char>) -> bool {
    let word = lower(trimmed(status));
    word == "completed"@ || word == "complete"@ || word == "finished"@ || word == "seeding"@
}

/// Whether a task is finished: by its date, by what is left of it, by its own
/// word, by its progress or by its status.
pub open spec fn is_finished(task: TaskView) -> bool {
    ||| task.finish_date.len() > 0
    ||| task.left == Some(0u64)
    ||| task.completed == Some(true)
    ||| task.progress_percent matches Some(bits) && is_nearly_done(bits)
    ||| is_finished_word(task.status)
}

/// Tells whether a task is finished.
pub fn bitcomet_task_completed(task: &BitCometTask) -> (r: bool)
    ensures
        r == is_finished(task@),
{
    let word = to_lower(&trim(&task.status));
    let nothing_left = match task.left {
        Some(left) => left == 0,
        None => false,
    };
    let by_its_word = match task.completed {
        Some(completed) => completed,
        None => false,
    };
    let nearly_done = match task.progress_percent {
        Some(bits) => NEARLY_DONE_BITS <= bits && bits <= INFINITY_BITS,
        None => false,
    };
    !task.finish_date.as_str().is_empty() || nothing_left || by_its_word || nearly_done
        || same_text(&word, "completed") || same_text(&word, "complete") || same_text(
        &word,
        "finished",
    ) || same_text(&word, "seeding")
}

/// The name under which a task saves: the one that it gives, else the one
/// that it shows.
pub open spec fn save_name_of(task: TaskView) -> Seq<char> {
    if task.save_name.len() == 0 {
        task.show_name
    } else {
        task.save_name
    }
}

/// An item with the name and the place that its task gives.
pub open spec fn with_names(item: ItemView, task: TaskView) -> ItemView {
    ItemView {
        save_name: if save_name_of(task).len() > 0 {
            Some(save_name_of(task))
        } else {
            item.save_name
        },
        save_location: if task.save_location.len() > 0 {
            Some(task.save_location)
        } else {
            item.save_location
        },
        ..item
    }
}

/// An item that was finished but is no longer there.
pub open spec fn gone(item: ItemView, there: Option<bool>, now: Seq<char>) -> ItemView {
    if item.status == ItemStatus::Completed && there == Some(false) {
        ItemView { status: ItemStatus::Deleted, updated_at: now, ..item }
    } else {
        item
    }
}

/// The task of an item that is looked after: not deleted, not ignored, and
/// with a task among those that there are.
pub open spec fn task_place(item: ItemView, tasks: Seq<TaskView>) -> Option<int> {
    if item.status == ItemStatus::Deleted || item.status == ItemStatus::Ignored {
        None
    } else {
        match item.info_hash {
            Some(info_hash) => {
                let at = find_task(tasks, info_hash, 0);
                if at < tasks.len() {
                    Some(at)
                } else {
                    None
                }
            },
            None => None,
        }
    }
}

/// An item as its task has it, given whether its files are there under the
/// name and in the place that the task gives.
pub open spec fn followed(
    item: ItemView,
    task: TaskView,
    there: Option<bool>,
    now: Seq<char>,
) -> ItemView {
    let named = with_names(item, task);
    if is_finished(task) {
        ItemView {
            status: if there == Some(false) {
                ItemStatus::Deleted
            } else {
                ItemStatus::Completed
            },
            completed_at: if named.completed_at is None {
                Some(now)
            } else {
                named.completed_at
            },
            updated_at: now,
            last_error: None,
            ..named
        }
    } else if contains_text(lower(task.status), "stopped"@) && named.status != ItemStatus::Paused {
        ItemView { status: ItemStatus::Paused, updated_at: now, ..named }
    } else {
        named
    }
}

/// Whether the files of an item are there: as the item has them, and as its
/// task has them.
#[derive(Clone, Copy, Debug)]
pub struct Presence {
    pub before: Option<bool>,
    pub after: Option<bool>,
}

/// What becomes of an item.
pub open spec fn looked_after(
    item: ItemView,
    tasks: Seq<TaskView>,
    presence: Presence,
    now: Seq<char>,
) -> ItemView {
    let item = gone(item, presence.before, now);
    match task_place(item, tasks) {
        Some(at) => followed(item, tasks[at], presence.after, now),
        None => item,
    }
}

/// Whether something becomes of an item that has to be saved.
pub open spec fn is_changed(
    item: ItemView,
    tasks: Seq<TaskView>,
    presence: Presence,
) -> bool {
    let missing = item.status == ItemStatus::Completed && presence.before == Some(false);
    let status = if missing {
        ItemStatus::Deleted
    } else {
        item.status
    };
    missing || match task_place(ItemView { status, ..item }, tasks) {
        Some(at) => {
            let named = with_names(item, tasks[at]);
            ||| named.save_name != item.save_name
            ||| named.save_location != item.save_location
            ||| is_finished(tasks[at])
            ||| contains_text(lower(tasks[at].status), "stopped"@) && status != ItemStatus::Paused
        },
        None => false,
    }
}

fn take_names(item: &mut FeedItem, task: &BitCometTask) -> (changed: bool)
    ensures
        final(item)@ == with_names(old(item)@, task@),
        changed == (final(item)@.save_name != old(item)@.save_name || final(item)@.save_location
            != old(item)@.save_location),
{
    let name = if task.save_name.as_str().is_empty() {
        &task.show_name
    } else {
        &task.save_name
    };
    let mut changed = false;
    if !name.as_str().is_empty() {
        let same = match &item.save_name {
            Some(known) => same_text(known, name),
            None => false,
        };
        if !same {
            item.save_name = Some(name.clone());
            changed = true;
        }
    }
    if !task.save_location.as_str().is_empty() {
        let same = match &item.save_location {
            Some(known) => same_text(known, &task.save_location),
            None => false,
        };
        if !same {
            item.save_location = Some(task.save_location.clone());
            changed = true;
        }
    }
    changed
}

fn place_of_task(item: &FeedItem, tasks: &Vec<BitCometTask>) -> (r: Option<usize>)
    ensures
        match r {
            Some(at) => at < tasks@.len() && task_place(item@, tasks_view(tasks@)) == Some(
                at as int,
            ),
            None => task_place(item@, tasks_view(tasks@)) is None,
        },
{
    if item.status == ItemStatus::Deleted || item.status == ItemStatus::Ignored {
        return None;
    }
    match &item.info_hash {
        Some(info_hash) => first_task(tasks, info_hash),
        None => None,
    }
}

/// An item with the name and the place that its task gives, where it has a
/// task that is looked after. Whether the files are there is found out by it.
pub fn named_by_task(item: &FeedItem, tasks: &Vec<BitCometTask>) -> (r: FeedItem)
    ensures
        r@ == match task_place(item@, tasks_view(tasks@)) {
            Some(at) => with_names(item@, tasks_view(tasks@)[at]),
            None => item@,
        },
{
    let mut named = item.clone();
    if let Some(at) = place_of_task(item, tasks) {
        let _ = take_names(&mut named, &tasks[at]);
    }
    named
}

/// Looks after an item, and tells whether something has become of it.
pub fn look_after(
    item: &mut FeedItem,
    tasks: &Vec<BitCometTask>,
    presence: Presence,
    now: &Moment,
) -> (changed: bool)
    ensures
        final(item)@ == looked_after(
            old(item)@,
            tasks_view(tasks@),
            presence,
            rfc3339_text_of(now.at()),
        ),
        changed == is_changed(old(item)@, tasks_view(tasks@), presence),
{
    let mut changed = false;
    let missing = match presence.before {
        Some(there) => !there,
        None => false,
    };
    if item.status == ItemStatus::Completed && missing {
        item.status = ItemStatus::Deleted;
        item.updated_at = now.text();
        changed = true;
    }
    let at = match place_of_task(item, tasks) {
        Some(at) => at,
        None => {
            return changed;
        },
    };
    let task = &tasks[at];
    if take_names(item, task) {
        changed = true;
    }
    if bitcomet_task_completed(task) {
        let lost = match presence.after {
            Some(there) => !there,
            None => false,
        };
        item.status = if lost {
            ItemStatus::Deleted
        } else {
            ItemStatus::Completed
        };
        if item.completed_at.is_none() {
            item.completed_at = Some(now.text());
        }
        item.updated_at = now.text();
        item.last_error = None;
        changed = true;
    } else if contains(&to_lower(&task.status), "stopped") {
        if item.status != ItemStatus::Paused {
            item.status = ItemStatus::Paused;
            item.updated_at = now.text();
            changed = true;
        }
    }
    changed
}

/// What becomes of all items.
pub open spec fn all_looked_after(
    items: Seq<ItemView>,
    tasks: Seq<TaskView>,
    presence: Seq<Presence>,
    now: Seq<char>,
) -> Seq<ItemView> {
    Seq::new(items.len(), |i: int| looked_after(items[i], tasks, presence[i], now))
}

/// Whether something becomes of any item.
pub open spec fn any_changed(
    items: Seq<ItemView>,
    tasks: Seq<TaskView>,
    presence: Seq<Presence>,
) -> bool {
    exists|i: int| 0 <= i < items.len() && #[trigger] is_changed(items[i], tasks, presence[i])
}

impl Service {
    /// Looks after all items, and tells whether the state is to be saved.
    pub fn refresh_completion_status_with_tasks(
        &mut self,
        tasks: &Vec<BitCometTask>,
        presence: &Vec<Presence>,
        now: &Moment,
    ) -> (changed: bool)
        requires
            presence@.len() == old(self).inner.state.items@.len(),
        ensures
            final(self).same_place(*old(self)),
            final(self).inner@ == old(self).inner@.with_items(
                all_looked_after(
                    old(self).inner@.state.items,
                    tasks_view(tasks@),
                    presence@,
                    rfc3339_text_of(now.at()),
                ),
            ),
            changed == any_changed(
                old(self).inner@.state.items,
                tasks_view(tasks@),
                presence@,
            ),
    {
        let ghost before = items_view(self.inner.state.items@);
        let ghost view = tasks_view(tasks@);
        let ghost time = rfc3339_text_of(now.at());
        let mut kept: Vec<FeedItem> = Vec::new();
        let mut changed = false;
        let mut i: usize = 0;
        while i < self.inner.state.items.len()
            invariant
                i <= self.inner.state.items@.len(),
                *self == *old(self),
                before == items_view(self.inner.state.items@),
                view == tasks_view(tasks@),
                time == rfc3339_text_of(now.at()),
                presence@.len() == before.len(),
                kept@.len() == i,
                forall|j: int|
                    0 <= j < i ==> (#[trigger] kept@[j])@ == looked_after(
                        before[j],
                        view,
                        presence@[j],
                        time,
                    ),
                changed == exists|j: int|
                    0 <= j < i && #[trigger] is_changed(before[j], view, presence@[j]),
            decreases self.inner.state.items@.len() - i,
        {
            let mut item = self.inner.state.items[i].clone();
            let ghost was = changed;
            if look_after(&mut item, tasks, presence[i], now) {
                changed = true;
                assert(is_changed(before[i as int], view, presence@[i as int]));
            }
            kept.push(item);
            proof {
                if was {
                    let j = choose|j: int|
                        0 <= j < i && #[trigger] is_changed(before[j], view, presence@[j]);
                    assert(is_changed(before[j], view, presence@[j]));
                }
            }
            i += 1;
        }
        assert(items_view(kept@) =~= all_looked_after(before, view, presence@, time));
        self.inner.state.items = kept;
        changed
    }
}

/// Ignored items and deleted items are left alone.
pub proof fn law_ignored_and_deleted_are_left_alone(
    item: ItemView,
    tasks: Seq<TaskView>,
    presence: Presence,
    now: Seq<char>,
)
    requires
        item.status == ItemStatus::Ignored || item.status == ItemStatus::Deleted,
    ensures
        looked_after(item, tasks, presence, now) == item,
        !is_changed(item, tasks, presence),
{
}

/// Whatever becomes of an item, it stays the item that it was; and where
/// nothing has to be saved, nothing has changed.
pub proof fn law_looking_after_keeps_identity(
    item: ItemView,
    tasks: Seq<TaskView>,
    presence: Presence,
    now: Seq<char>,
)
    ensures
        ({
            let after = looked_after(item, tasks, presence, now);
            &&& after.id == item.id
            &&& after.unique_key == item.unique_key
            &&& after.title == item.title
            &&& after.info_hash == item.info_hash
            &&& after.enclosure_url == item.enclosure_url
            &&& after.first_seen_at == item.first_seen_at
            &&& !is_changed(item, tasks, presence) ==> after == item
        }),
{
}

/// An item becomes completed only by a task that is finished, and only where
/// its files are not known to be missing.
pub proof fn law_completed_only_by_a_finished_task(
    item: ItemView,
    tasks: Seq<TaskView>,
    presence: Presence,
    now: Seq<char>,
)
    requires
        item.status != ItemStatus::Completed,
        looked_after(item, tasks, presence, now).status == ItemStatus::Completed,
    ensures
        task_place(item, tasks) matches Some(at) && is_finished(tasks[at]),
        presence.after != Some(false),
{
}

/// A finished item whose files are missing is deleted, whatever its task
/// says.
pub proof fn law_missing_files_mean_deleted(
    item: ItemView,
    tasks: Seq<TaskView>,
    after: Option<bool>,
    now: Seq<char>,
)
    requires
        item.status == ItemStatus::Completed,
    ensures
        looked_after(item, tasks, Presence { before: Some(false), after }, now).status
            == ItemStatus::Deleted,
{
}

} // verus!
