//! Keeping the state file: how it is written so that an earlier state is never
//! lost, and how it is read where it is broken. What is to be done to the
//! files is asked for one thing at a time.

use vstd::prelude::*;
use vstd::string::*;

use crate::text::optional;
use crate::util::unreadable_message;

verus! {

/// What is to be done to the files. The new state is first written to a
/// temporary file.
#[derive(Clone, Copy, Debug, PartialEq, Eq, Structural)]
pub enum SaveAction {
    WriteTemporary,
    /// The temporary file takes the place of the state file, which becomes the
    /// backup, in one call.
    Replace,
    RemoveBackup,
    /// The state file becomes the backup.
    MoveToBackup,
    /// The temporary file becomes the state file.
    MoveIntoPlace,
    /// The backup becomes the state file again.
    MoveBack,
    RemoveTemporary,
}

/// A state that is being saved: what is to be done next, unless it is over,
/// and what went wrong.
#[derive(Debug)]
pub struct Saving {
    pub action: Option<SaveAction>,
    /// Whether the system can replace a file in one call.
    pub single_call: bool,
    /// Whether the state file has become the backup.
    pub moved: bool,
    pub failure: Option<String>,
}

/// The contents of a `Saving`.
pub struct SavingView {
    pub action: Option<SaveAction>,
    pub single_call: bool,
    pub moved: bool,
    pub failure: Option<Seq<char>>,
}

impl View for Saving {
    type V = SavingView;

    open spec fn view(&self) -> SavingView {
        SavingView {
            action: self.action,
            single_call: self.single_call,
            moved: self.moved,
            failure: optional(self.failure),
        }
    }
}

/// A save at its beginning.
pub open spec fn save_begins(single_call: bool) -> SavingView {
    SavingView {
        action: Some(SaveAction::WriteTemporary),
        single_call,
        moved: false,
        failure: None,
    }
}

/// A save once something was done, given how that went and which files there
/// are then.
pub open spec fn save_goes_on(
    saving: SavingView,
    failure: Option<Seq<char>>,
    state_exists: bool,
    backup_exists: bool,
) -> SavingView {
    match (saving.action, failure) {
        (None, _) => saving,
        (Some(SaveAction::WriteTemporary), Some(_)) => SavingView {
            action: None,
            failure,
            ..saving
        },
        (Some(SaveAction::WriteTemporary), None) => SavingView {
            action: Some(
                if !state_exists {
                    SaveAction::MoveIntoPlace
                } else if saving.single_call {
                    SaveAction::Replace
                } else if backup_exists {
                    SaveAction::RemoveBackup
                } else {
                    SaveAction::MoveToBackup
                },
            ),
            ..saving
        },
        (Some(SaveAction::RemoveBackup), None) => SavingView {
            action: Some(SaveAction::MoveToBackup),
            ..saving
        },
        (Some(SaveAction::MoveToBackup), None) => SavingView {
            action: Some(SaveAction::MoveIntoPlace),
            moved: true,
            ..saving
        },
        (Some(SaveAction::Replace), None) => SavingView { action: None, ..saving },
        (Some(SaveAction::MoveIntoPlace), None) => SavingView { action: None, ..saving },
        (Some(SaveAction::MoveIntoPlace), Some(_)) => SavingView {
            action: Some(
                if saving.moved {
                    SaveAction::MoveBack
                } else {
                    SaveAction::RemoveTemporary
                },
            ),
            failure,
            ..saving
        },
        (Some(SaveAction::MoveBack), _) => SavingView {
            action: Some(SaveAction::RemoveTemporary),
            ..saving
        },
        (Some(SaveAction::RemoveTemporary), _) => SavingView { action: None, ..saving },
        (Some(_), Some(_)) => SavingView {
            action: Some(SaveAction::RemoveTemporary),
            failure,
            ..saving
        },
    }
}

/// What went wrong, if anything.
pub open spec fn fault_in(done: Result<(), String>) -> Option<Seq<char>> {
    match done {
        Ok(()) => None,
        Err(error) => Some(error@),
    }
}

impl Saving {
    /// Begins to save a state.
    pub fn write_json(single_call: bool) -> (r: Saving)
        ensures
            r@ == save_begins(single_call),
    {
        Saving {
            action: Some(SaveAction::WriteTemporary),
            single_call,
            moved: false,
            failure: None,
        }
    }

    /// Goes on once something was done.
    pub fn advance(&mut self, done: Result<(), String>, state_exists: bool, backup_exists: bool)
        ensures
            final(self)@ == save_goes_on(
                old(self)@,
                fault_in(done),
                state_exists,
                backup_exists,
            ),
    {
        match (self.action, done) {
            (None, _) => {},
            (Some(SaveAction::WriteTemporary), Err(error)) => {
                self.action = None;
                self.failure = Some(error);
            },
            (Some(SaveAction::WriteTemporary), Ok(())) => {
                self.action = Some(
                    if !state_exists {
                        SaveAction::MoveIntoPlace
                    } else if self.single_call {
                        SaveAction::Replace
                    } else if backup_exists {
                        SaveAction::RemoveBackup
                    } else {
                        SaveAction::MoveToBackup
                    },
                );
            },
            (Some(SaveAction::RemoveBackup), Ok(())) => {
                self.action = Some(SaveAction::MoveToBackup);
            },
            (Some(SaveAction::MoveToBackup), Ok(())) => {
                self.action = Some(SaveAction::MoveIntoPlace);
                self.moved = true;
            },
            (Some(SaveAction::Replace), Ok(())) => {
                self.action = None;
            },
            (Some(SaveAction::MoveIntoPlace), Ok(())) => {
                self.action = None;
            },
            (Some(SaveAction::MoveIntoPlace), Err(error)) => {
                self.action = Some(
                    if self.moved {
                        SaveAction::MoveBack
                    } else {
                        SaveAction::RemoveTemporary
                    },
                );
                self.failure = Some(error);
            },
            (Some(SaveAction::MoveBack), _) => {
                self.action = Some(SaveAction::RemoveTemporary);
            },
            (Some(SaveAction::RemoveTemporary), _) => {
                self.action = None;
            },
            (Some(_), Err(error)) => {
                self.action = Some(SaveAction::RemoveTemporary);
                self.failure = Some(error);
            },
        }
    }
}

/// What is in the three files, as far as there are any.
pub struct Files<C> {
    pub state: Option<C>,
    pub backup: Option<C>,
    pub temporary: Option<C>,
}

/// The files once something was done to them.
pub open spec fn files_after<C>(files: Files<C>, action: SaveAction, new: C) -> Files<C> {
    match action {
        SaveAction::WriteTemporary => Files { temporary: Some(new), ..files },
        SaveAction::Replace => Files {
            state: files.temporary,
            backup: files.state,
            temporary: None,
        },
        SaveAction::RemoveBackup => Files { backup: None, ..files },
        SaveAction::MoveToBackup => Files { state: None, backup: files.state, ..files },
        SaveAction::MoveIntoPlace => Files { state: files.temporary, temporary: None, ..files },
        SaveAction::MoveBack => Files { state: files.backup, backup: None, ..files },
        SaveAction::RemoveTemporary => Files { temporary: None, ..files },
    }
}

/// Whether an earlier state can be read from the files, or there was none.
pub open spec fn still_there<C>(files: Files<C>, earlier: Option<C>) -> bool {
    files.state == earlier || (files.state is None && files.backup == earlier)
}

/// Whether a save is in order: the files hold what they should at each point,
/// given the state before the save and the state that is saved.
pub open spec fn in_order<C>(
    saving: SavingView,
    files: Files<C>,
    earlier: Option<C>,
    new: C,
) -> bool {
    match saving.action {
        Some(SaveAction::WriteTemporary) => files.state == earlier && saving.failure is None
            && !saving.moved,
        Some(SaveAction::Replace) | Some(SaveAction::RemoveBackup) | Some(
            SaveAction::MoveToBackup,
        ) => files.state == earlier && earlier is Some && files.temporary == Some(new)
            && saving.failure is None && !saving.moved,
        Some(SaveAction::MoveIntoPlace) => files.state is None && files.temporary == Some(new)
            && saving.failure is None && if saving.moved {
            files.backup == earlier
        } else {
            earlier is None
        },
        Some(SaveAction::MoveBack) => files.state is None && files.backup == earlier
            && saving.failure is Some,
        Some(SaveAction::RemoveTemporary) => saving.failure is Some && still_there(files, earlier),
        None => if saving.failure is None {
            files.state == Some(new) && (earlier is Some ==> files.backup == earlier)
        } else {
            still_there(files, earlier)
        },
    }
}

/// The things that are still to be done at most.
pub open spec fn save_steps_left(action: Option<SaveAction>) -> nat {
    match action {
        Some(SaveAction::WriteTemporary) => 6,
        Some(SaveAction::RemoveBackup) => 5,
        Some(SaveAction::MoveToBackup) => 4,
        Some(SaveAction::MoveIntoPlace) => 3,
        Some(SaveAction::Replace) => 3,
        Some(SaveAction::MoveBack) => 2,
        Some(SaveAction::RemoveTemporary) => 1,
        None => 0,
    }
}

/// A save is in order from its beginning on, and whatever is done or fails to
/// be done: a state that was saved before is there until the new one is, and
/// is the backup then. Each thing that is done brings the save closer to its
/// end.
pub proof fn law_saving_loses_no_state<C>(
    saving: SavingView,
    files: Files<C>,
    earlier: Option<C>,
    new: C,
    failure: Option<Seq<char>>,
)
    requires
        in_order(saving, files, earlier, new),
        saving.action is Some,
    ensures
        ({
            let then = if failure is None {
                files_after(files, saving.action->Some_0, new)
            } else {
                files
            };
            let next = save_goes_on(saving, failure, then.state is Some, then.backup is Some);
            &&& in_order(next, then, earlier, new)
            &&& save_steps_left(next.action) < save_steps_left(saving.action)
        }),
        forall|single_call: bool|
            in_order(
                #[trigger] save_begins(single_call),
                Files { state: earlier, ..files },
                earlier,
                new,
            ),
{
}

/// A save that is over and did not fail has put the new state in place, with
/// the earlier one as its backup; one that failed has left the earlier state
/// to be read.
pub proof fn law_save_ends_well<C>(
    saving: SavingView,
    files: Files<C>,
    earlier: Option<C>,
    new: C,
)
    requires
        in_order(saving, files, earlier, new),
        saving.action is None,
    ensures
        saving.failure is None ==> files.state == Some(new),
        saving.failure is None && earlier is Some ==> files.backup == earlier,
        saving.failure is Some ==> still_there(files, earlier),
{
}

/// What is to be done to read a state, or how it ended.
#[derive(Debug)]
pub enum LoadStep {
    ReadState,
    /// The state file cannot be read, for a reason.
    ReadBackup(String),
    RemoveState,
    /// What was read from the backup is to be saved.
    SaveBackup,
    UseState,
    UseBackup,
    Fail(String),
}

/// The contents of a `LoadStep`.
pub enum LoadView {
    ReadState,
    ReadBackup(Seq<char>),
    RemoveState,
    SaveBackup,
    UseState,
    UseBackup,
    Fail(Seq<char>),
}

impl View for LoadStep {
    type V = LoadView;

    open spec fn view(&self) -> LoadView {
        match self {
            LoadStep::ReadState => LoadView::ReadState,
            LoadStep::ReadBackup(error) => LoadView::ReadBackup(error@),
            LoadStep::RemoveState => LoadView::RemoveState,
            LoadStep::SaveBackup => LoadView::SaveBackup,
            LoadStep::UseState => LoadView::UseState,
            LoadStep::UseBackup => LoadView::UseBackup,
            LoadStep::Fail(message) => LoadView::Fail(message@),
        }
    }
}

/// What is to be done next to read a state, given how the last thing went and
/// whether the state file is there.
pub open spec fn load_goes_on(
    step: LoadView,
    failure: Option<Seq<char>>,
    state_exists: bool,
) -> LoadView {
    match (step, failure) {
        (LoadView::ReadState, None) => LoadView::UseState,
        (LoadView::ReadState, Some(error)) => LoadView::ReadBackup(error),
        (LoadView::ReadBackup(error), Some(other)) => LoadView::Fail(
            "状态文件和备份都无法读取："@ + error + "；备份错误："@ + other,
        ),
        (LoadView::ReadBackup(_), None) => if state_exists {
            LoadView::RemoveState
        } else {
            LoadView::SaveBackup
        },
        (LoadView::RemoveState, None) => LoadView::SaveBackup,
        (LoadView::RemoveState, Some(error)) => LoadView::Fail(error),
        (LoadView::SaveBackup, None) => LoadView::UseBackup,
        (LoadView::SaveBackup, Some(error)) => LoadView::Fail(error),
        _ => step,
    }
}

impl LoadStep {
    /// Begins to read a state.
    pub fn read_json_with_backup() -> (r: LoadStep)
        ensures
            r@ == LoadView::ReadState,
    {
        LoadStep::ReadState
    }

    /// What is to be done next.
    pub fn next(self, done: Result<(), String>, state_exists: bool) -> (r: LoadStep)
        ensures
            r@ == load_goes_on(self@, fault_in(done), state_exists),
    {
        match (self, done) {
            (LoadStep::ReadState, Ok(())) => LoadStep::UseState,
            (LoadStep::ReadState, Err(error)) => LoadStep::ReadBackup(error),
            (LoadStep::ReadBackup(error), Err(other)) => LoadStep::Fail(
                unreadable_message(&error, &other),
            ),
            (LoadStep::ReadBackup(_), Ok(())) => if state_exists {
                LoadStep::RemoveState
            } else {
                LoadStep::SaveBackup
            },
            (LoadStep::RemoveState, Ok(())) => LoadStep::SaveBackup,
            (LoadStep::RemoveState, Err(error)) => LoadStep::Fail(error),
            (LoadStep::SaveBackup, Ok(())) => LoadStep::UseBackup,
            (LoadStep::SaveBackup, Err(error)) => LoadStep::Fail(error),
            (step, _) => step,
        }
    }
}

/// How reading ends, given whether the state file and the backup can be read,
/// where nothing else fails.
pub open spec fn load_end(
    state_fault: Option<Seq<char>>,
    backup_fault: Option<Seq<char>>,
    state_exists: bool,
) -> LoadView {
    let second = load_goes_on(LoadView::ReadState, state_fault, state_exists);
    let third = match second {
        LoadView::ReadBackup(_) => load_goes_on(second, backup_fault, state_exists),
        _ => second,
    };
    load_goes_on(load_goes_on(third, None, false), None, false)
}

/// A state that can be read is used; where it cannot, the backup is used, if
/// that can be; and only where neither can, nothing is.
pub proof fn law_backup_stands_in(
    state_fault: Option<Seq<char>>,
    backup_fault: Option<Seq<char>>,
    state_exists: bool,
)
    ensures
        state_fault is None ==> load_end(state_fault, backup_fault, state_exists)
            == LoadView::UseState,
        state_fault is Some && backup_fault is None ==> load_end(
            state_fault,
            backup_fault,
            state_exists,
        ) == LoadView::UseBackup,
        load_end(state_fault, backup_fault, state_exists) is Fail <==> state_fault is Some
            && backup_fault is Some,
{
}

} // verus!
