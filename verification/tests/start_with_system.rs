//! Starting with the system.

use mikan::startup::{
    command_result, enabled, legacy_query_command, migrate_legacy, query_command, set_enabled,
};

const RUN_KEY: &str = r"HKCU\Software\Microsoft\Windows\CurrentVersion\Run";

#[test]
fn asks_whether_it_is_registered() {
    let query = query_command();
    assert_eq!(query.program, "reg.exe");
    assert_eq!(query.arguments, vec!["query", RUN_KEY, "/v", "MikanRssDownloader"]);
    let legacy = legacy_query_command();
    assert_eq!(legacy.program, "schtasks.exe");
    assert_eq!(legacy.arguments, vec!["/query", "/tn", "MikanRssDownloader"]);
    assert!(enabled(&Ok((true, String::new()))));
    assert!(!enabled(&Ok((false, String::new()))));
    assert!(!enabled(&Err("missing".to_string())));
}

#[test]
fn registers_the_application_out_of_sight() {
    let steps = set_enabled(r"C:\a b.exe", true);
    assert_eq!(
        steps[0].command.arguments,
        vec![
            "add",
            RUN_KEY,
            "/v",
            "MikanRssDownloader",
            "/t",
            "REG_SZ",
            "/d",
            "\"C:\\a b.exe\" --hidden",
            "/f"
        ]
    );
    assert!(steps[0].required);
    assert_eq!(
        steps[1].command.arguments,
        vec!["/delete", "/tn", "MikanRssDownloader", "/f"]
    );
    assert!(!steps[1].required);
}

#[test]
fn takes_the_registration_back_without_fail() {
    let steps = set_enabled("x", false);
    assert_eq!(
        steps[0].command.arguments,
        vec!["delete", RUN_KEY, "/v", "MikanRssDownloader", "/f"]
    );
    assert!(steps.iter().all(|step| !step.required));
}

#[test]
fn says_how_a_command_failed() {
    assert_eq!(command_result("reg.exe", &Ok((true, String::new()))), Ok(()));
    assert_eq!(
        command_result("reg.exe", &Ok((false, "exit code: 1".to_string()))).unwrap_err(),
        "reg.exe exited with exit code: 1"
    );
    assert_eq!(command_result("reg.exe", &Err("missing".to_string())).unwrap_err(), "missing");
}

#[test]
fn replaces_a_registration_of_once() {
    assert!(migrate_legacy(false, true));
    assert!(!migrate_legacy(true, true));
    assert!(!migrate_legacy(false, false));
}
