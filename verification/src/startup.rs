//! Starting with the system: the commands that register the application, and
//! what is made of how they ran.

use vstd::prelude::*;
use vstd::string::*;

use crate::text::{joined, texts};

verus! {

/// A command: a program and its arguments.
#[derive(Debug)]
pub struct SystemCommand {
    pub program: String,
    pub arguments: Vec<String>,
}

/// The contents of a `SystemCommand`.
pub struct CommandView {
    pub program: Seq<char>,
    pub arguments: Seq<Seq<char>>,
}

impl View for SystemCommand {
    type V = CommandView;

    open spec fn view(&self) -> CommandView {
        CommandView { program: self.program@, arguments: texts(self.arguments@) }
    }
}

/// The key of the registry under which programs are started.
pub open spec fn run_key() -> Seq<char> {
    r"HKCU\Software\Microsoft\Windows\CurrentVersion\Run"@
}

/// Asks whether the application is registered.
pub open spec fn query() -> CommandView {
    CommandView {
        program: "reg.exe"@,
        arguments: seq!["query"@, run_key(), "/v"@, "MikanRssDownloader"@],
    }
}

/// Asks whether the application is registered the way it was once.
pub open spec fn legacy_query() -> CommandView {
    CommandView {
        program: "schtasks.exe"@,
        arguments: seq!["/query"@, "/tn"@, "MikanRssDownloader"@],
    }
}

/// Registers the application, to be started out of sight.
pub open spec fn registration(executable: Seq<char>) -> CommandView {
    CommandView {
        program: "reg.exe"@,
        arguments: seq![
            "add"@,
            run_key(),
            "/v"@,
            "MikanRssDownloader"@,
            "/t"@,
            "REG_SZ"@,
            "/d"@,
            "\""@ + executable + "\" --hidden"@,
            "/f"@,
        ],
    }
}

/// Takes the registration back.
pub open spec fn removal() -> CommandView {
    CommandView {
        program: "reg.exe"@,
        arguments: seq!["delete"@, run_key(), "/v"@, "MikanRssDownloader"@, "/f"@],
    }
}

/// Takes the registration of once back.
pub open spec fn legacy_removal() -> CommandView {
    CommandView {
        program: "schtasks.exe"@,
        arguments: seq!["/delete"@, "/tn"@, "MikanRssDownloader"@, "/f"@],
    }
}

/// The command that asks whether the application is registered.
pub fn query_command() -> (r: SystemCommand)
    ensures
        r@ == query(),
{
    let arguments = vec![
        "query".to_string(),
        r"HKCU\Software\Microsoft\Windows\CurrentVersion\Run".to_string(),
        "/v".to_string(),
        "MikanRssDownloader".to_string(),
    ];
    assert(texts(arguments@) =~= query().arguments);
    SystemCommand { program: "reg.exe".to_string(), arguments }
}

/// The command that asks whether the application is registered the way it was
/// once.
pub fn legacy_query_command() -> (r: SystemCommand)
    ensures
        r@ == legacy_query(),
{
    let arguments = vec![
        "/query".to_string(),
        "/tn".to_string(),
        "MikanRssDownloader".to_string(),
    ];
    assert(texts(arguments@) =~= legacy_query().arguments);
    SystemCommand { program: "schtasks.exe".to_string(), arguments }
}

/// How a command ran: whether it succeeded, with what its status is called, or
/// why it could not be run.
pub type Ran = Result<(bool, String), String>;

/// Tells whether the application is registered, from how the command ran that
/// asks it.
pub fn enabled(queried: &Ran) -> (r: bool)
    ensures
        r == (queried matches Ok((true, _))),
{
    match queried {
        Ok((success, _)) => *success,
        Err(_) => false,
    }
}

/// What went wrong with a command.
pub open spec fn command_fault(program: Seq<char>, ran: Ran) -> Option<Seq<char>> {
    match ran {
        Ok((true, _)) => None,
        Ok((false, status)) => Some(program + " exited with "@ + status@),
        Err(fault) => Some(fault@),
    }
}

/// Says what went wrong with a command.
pub fn command_result(program: &str, ran: &Ran) -> (r: Result<(), String>)
    ensures
        match r {
            Ok(()) => command_fault(program@, *ran) is None,
            Err(message) => command_fault(program@, *ran) == Some(message@),
        },
{
    match ran {
        Ok((success, status)) => if *success {
            Ok(())
        } else {
            let mut text = joined(program, " exited with ");
            text.append(status);
            Err(text)
        },
        Err(fault) => Err(fault.clone()),
    }
}

/// A command, and whether the change fails where it does not succeed.
#[derive(Debug)]
pub struct Step {
    pub command: SystemCommand,
    pub required: bool,
}

/// The commands of several steps, and whether each is required.
pub open spec fn steps_view(steps: Seq<Step>) -> Seq<(CommandView, bool)> {
    Seq::new(steps.len(), |i: int| (steps[i].command@, steps[i].required))
}

/// What is done to have the application started with the system, or not.
pub open spec fn change(executable: Seq<char>, should_enable: bool) -> Seq<(CommandView, bool)> {
    if should_enable {
        seq![(registration(executable), true), (legacy_removal(), false)]
    } else {
        seq![(removal(), false), (legacy_removal(), false)]
    }
}

/// Plans what is done to have the application started with the system, or
/// not.
pub fn set_enabled(executable: &str, should_enable: bool) -> (r: Vec<Step>)
    ensures
        steps_view(r@) == change(executable@, should_enable),
{
    let run_key = r"HKCU\Software\Microsoft\Windows\CurrentVersion\Run";
    let arguments = if should_enable {
        let mut value = joined("\"", executable);
        value.append("\" --hidden");
        vec![
            "add".to_string(),
            run_key.to_string(),
            "/v".to_string(),
            "MikanRssDownloader".to_string(),
            "/t".to_string(),
            "REG_SZ".to_string(),
            "/d".to_string(),
            value,
            "/f".to_string(),
        ]
    } else {
        vec![
            "delete".to_string(),
            run_key.to_string(),
            "/v".to_string(),
            "MikanRssDownloader".to_string(),
            "/f".to_string(),
        ]
    };
    assert(texts(arguments@) =~= change(executable@, should_enable)[0].0.arguments);
    let legacy = vec![
        "/delete".to_string(),
        "/tn".to_string(),
        "MikanRssDownloader".to_string(),
        "/f".to_string(),
    ];
    assert(texts(legacy@) =~= legacy_removal().arguments);
    let steps = vec![
        Step {
            command: SystemCommand { program: "reg.exe".to_string(), arguments },
            required: should_enable,
        },
        Step {
            command: SystemCommand { program: "schtasks.exe".to_string(), arguments: legacy },
            required: false,
        },
    ];
    assert(steps_view(steps@) =~= change(executable@, should_enable));
    steps
}

/// Decides whether a registration of once is replaced: where there is one,
/// and no other.
pub fn migrate_legacy(registered: bool, registered_once: bool) -> (r: bool)
    ensures
        r == (!registered && registered_once),
{
    !registered && registered_once
}

/// Turning the start with the system off never fails.
pub proof fn law_switching_off_never_fails(executable: Seq<char>)
    ensures
        forall|i: int|
            0 <= i < change(executable, false).len() ==> !(#[trigger] change(
                executable,
                false,
            )[i]).1,
{
}

} // verus!
