//! Saving and reading the state file, over files that are held in memory.

use mikan::store::{LoadStep, SaveAction, Saving};

#[derive(Clone, Debug, Default, PartialEq)]
struct Files {
    state: Option<&'static str>,
    backup: Option<&'static str>,
    temporary: Option<&'static str>,
}

fn done_to(files: &mut Files, action: SaveAction, new: &'static str) {
    match action {
        SaveAction::WriteTemporary => files.temporary = Some(new),
        SaveAction::Replace => {
            files.backup = files.state;
            files.state = files.temporary.take();
        }
        SaveAction::RemoveBackup => files.backup = None,
        SaveAction::MoveToBackup => files.backup = files.state.take(),
        SaveAction::MoveIntoPlace => files.state = files.temporary.take(),
        SaveAction::MoveBack => files.state = files.backup.take(),
        SaveAction::RemoveTemporary => files.temporary = None,
    }
}

fn save(
    files: &mut Files,
    new: &'static str,
    single_call: bool,
    failing: &[SaveAction],
) -> (Vec<SaveAction>, Option<String>) {
    let mut asked = Vec::new();
    let mut saving = Saving::write_json(single_call);
    while let Some(action) = saving.action {
        asked.push(action);
        let done = if failing.contains(&action) {
            Err(format!("{action:?} failed"))
        } else {
            done_to(files, action, new);
            Ok(())
        };
        saving.advance(done, files.state.is_some(), files.backup.is_some());
    }
    (asked, saving.failure)
}

const BROKEN: &str = "invalid json";

fn revision(text: &str) -> Result<i64, String> {
    let value: serde_json::Value =
        serde_json::from_str(text).map_err(|error| error.to_string())?;
    value["revision"].as_i64().ok_or_else(|| "no revision".to_string())
}

fn read(file: Option<&'static str>) -> Result<&'static str, String> {
    match file {
        None => Err("missing".to_string()),
        Some(text) => revision(text).map(|_| text),
    }
}

fn load(files: &mut Files) -> Result<&'static str, String> {
    let mut step = LoadStep::read_json_with_backup();
    let mut text = "";
    loop {
        let done = match &step {
            LoadStep::ReadState => read(files.state).map(|value| text = value),
            LoadStep::ReadBackup(_) => read(files.backup).map(|value| text = value),
            LoadStep::RemoveState => {
                files.state = None;
                Ok(())
            }
            LoadStep::SaveBackup => {
                let (_, failure) = save(files, text, false, &[]);
                assert_eq!(failure, None);
                Ok(())
            }
            LoadStep::UseState | LoadStep::UseBackup => return Ok(text),
            LoadStep::Fail(message) => return Err(message.clone()),
        };
        step = step.next(done, files.state.is_some());
    }
}

#[test]
fn restores_state_from_atomic_backup() {
    let mut files = Files::default();
    save(&mut files, "{\"revision\": 1}", false, &[]);
    save(&mut files, "{\"revision\": 2}", false, &[]);
    save(&mut files, "{\"revision\": 3}", false, &[]);
    assert_eq!(revision(load(&mut files).unwrap()), Ok(3));

    files.state = Some(BROKEN);
    let recovered = load(&mut files).unwrap();
    assert_eq!(revision(recovered), Ok(2));
    assert_eq!(revision(files.state.unwrap()), Ok(2));
    assert_eq!(revision(load(&mut files).unwrap()), Ok(2));
}

#[test]
fn saves_in_few_steps() {
    let mut files = Files::default();
    assert_eq!(
        save(&mut files, "a", false, &[]),
        (vec![SaveAction::WriteTemporary, SaveAction::MoveIntoPlace], None)
    );
    assert_eq!(
        save(&mut files, "b", true, &[]),
        (vec![SaveAction::WriteTemporary, SaveAction::Replace], None)
    );
    assert_eq!(files, Files { state: Some("b"), backup: Some("a"), temporary: None });
    assert_eq!(
        save(&mut files, "c", false, &[]),
        (
            vec![
                SaveAction::WriteTemporary,
                SaveAction::RemoveBackup,
                SaveAction::MoveToBackup,
                SaveAction::MoveIntoPlace,
            ],
            None
        )
    );
    assert_eq!(files, Files { state: Some("c"), backup: Some("b"), temporary: None });
}

#[test]
fn loses_no_state_where_saving_fails() {
    let before = Files { state: Some("old"), backup: Some("older"), temporary: None };
    let actions = [
        SaveAction::WriteTemporary,
        SaveAction::Replace,
        SaveAction::RemoveBackup,
        SaveAction::MoveToBackup,
        SaveAction::MoveIntoPlace,
    ];
    for action in actions {
        let mut files = before.clone();
        let single_call = action == SaveAction::Replace;
        let (_, failure) = save(&mut files, "new", single_call, &[action]);
        assert_eq!(failure, Some(format!("{action:?} failed")));
        assert_eq!(files.state, Some("old"));
        assert_eq!(files.temporary, None);
    }
    let mut files = before.clone();
    let (asked, failure) = save(
        &mut files,
        "new",
        false,
        &[SaveAction::MoveIntoPlace, SaveAction::MoveBack],
    );
    assert_eq!(asked.last(), Some(&SaveAction::RemoveTemporary));
    assert_eq!(failure.as_deref(), Some("MoveIntoPlace failed"));
    assert_eq!(files, Files { state: None, backup: Some("old"), temporary: None });
}

#[test]
fn reports_both_files_where_neither_can_be_read() {
    let mut files = Files { state: Some(BROKEN), backup: None, temporary: None };
    assert_eq!(
        load(&mut files).unwrap_err(),
        "状态文件和备份都无法读取：expected value at line 1 column 1；备份错误：missing"
    );
    assert_eq!(files.state, Some(BROKEN));
    let step = LoadStep::RemoveState.next(Err("locked".to_string()), true);
    assert!(matches!(step, LoadStep::Fail(message) if message == "locked"));
    let step = LoadStep::SaveBackup.next(Err("full".to_string()), false);
    assert!(matches!(step, LoadStep::Fail(message) if message == "full"));
}
