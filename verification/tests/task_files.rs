//! The tasks that BitComet writes to its files.

use mikan::bitcomet::tasks::{
    decode_utf16, existing_hashes, parse_tasks, read_tasks, read_xml, wait_for_task,
    ProgressReading, WaitStep,
};
use mikan::util::PathFacts;

fn executable() -> PathFacts {
    PathFacts {
        path: r"C:\BitComet.exe".to_string(),
        file_name: Some("BitComet.exe".to_string()),
        parent: Some(r"C:\".to_string()),
        parent_is_dir: true,
        is_file: true,
        is_dir: false,
        exists: true,
    }
}

fn utf16(text: &str, little_endian: bool) -> Vec<u8> {
    let mut bytes = if little_endian { vec![0xff, 0xfe] } else { vec![0xfe, 0xff] };
    for unit in text.encode_utf16() {
        bytes.extend(if little_endian { unit.to_le_bytes() } else { unit.to_be_bytes() });
    }
    bytes
}

#[test]
fn parses_child_fields_and_utf16_xml() {
    let xml = r#"<Downloads><Torrent><InfoHashHex>ABC123</InfoHashHex><Progress>100%</Progress><Completed>true</Completed><SaveLocation>C:\Downloads\episode.mkv</SaveLocation><SaveName>episode.mkv</SaveName></Torrent></Downloads>"#;
    let decoded = read_xml(&utf16(xml, true)).unwrap();
    let tasks = parse_tasks(&decoded).unwrap();
    assert_eq!(tasks.len(), 1);
    assert_eq!(tasks[0].task.info_hash, "abc123");
    match &tasks[0].progress {
        ProgressReading::Percent(text) => assert_eq!(text.parse::<f64>(), Ok(100.0)),
        other => panic!("{other:?}"),
    }
    assert_eq!(tasks[0].task.completed, Some(true));
    assert_eq!(tasks[0].task.save_name, "episode.mkv");
}

#[test]
fn reads_each_encoding() {
    let text = "a示😀";
    assert_eq!(read_xml(&utf16(text, true)).as_deref(), Ok(text));
    assert_eq!(read_xml(&utf16(text, false)).as_deref(), Ok(text));
    assert_eq!(read_xml(&utf16("plain", true)[2..]).as_deref(), Ok("plain"));
    assert_eq!(read_xml(text.as_bytes()).as_deref(), Ok(text));
    assert_eq!(read_xml(&[]).as_deref(), Ok(""));
}

#[test]
fn refuses_what_is_no_text() {
    assert_eq!(read_xml(&[0xff, 0xfe, 0x41]).unwrap_err(), "Invalid UTF-16 XML length");
    assert_eq!(
        decode_utf16(&[0x00, 0xd8, 0x41, 0x00], 0, true).unwrap_err(),
        "invalid utf-16: lone surrogate found"
    );
    assert_eq!(
        decode_utf16(&[0x00, 0xdc], 0, true).unwrap_err(),
        "invalid utf-16: lone surrogate found"
    );
    assert!(read_xml(&[0x41, 0x80]).unwrap_err().contains("utf-8"));
}

#[test]
fn reads_fields_of_either_form() {
    let tasks = parse_tasks(
        "\u{feff}<D><Torrent infohash=' AB '><LEFT Value='1,024'/><Finished>No</Finished>\
         <ShowName>shown</ShowName><SavePath>D:\\</SavePath><FinishDate/></Torrent>\
         <Torrent><Left>1</Left></Torrent></D>",
    )
    .unwrap();
    assert_eq!(tasks.len(), 1);
    assert_eq!(tasks[0].task.info_hash, "ab");
    assert_eq!(tasks[0].task.left, Some(1024));
    assert_eq!(tasks[0].task.completed, Some(false));
    assert_eq!(tasks[0].task.show_name, "shown");
    assert_eq!(tasks[0].task.save_location, "D:\\");
    assert_eq!(tasks[0].task.finish_date, "");
    assert!(parse_tasks("no xml").is_none());
}

#[test]
fn reads_the_first_file_that_is_a_list() {
    let files = vec![
        vec![0xff, 0xfe, 0x00],
        b"no xml".to_vec(),
        b"<D><Torrent InfoHashHex='A'/><Torrent InfoHash='B'/><Torrent InfoHash='a'/></D>".to_vec(),
        b"<D><Torrent InfoHashHex='C'/></D>".to_vec(),
    ];
    assert_eq!(read_tasks(&executable(), &files).len(), 3);
    assert_eq!(existing_hashes(&executable(), &files), vec!["a", "b"]);
    let other = PathFacts { is_file: false, ..executable() };
    assert!(read_tasks(&other, &files).is_empty());
    assert!(read_tasks(&executable(), &vec![]).is_empty());
}

#[test]
fn waits_until_bitcomet_reports_info_hash() {
    let file = br#"<Downloads><Torrent InfoHashHex="abc123"/></Downloads>"#.to_vec();
    let before = existing_hashes(&executable(), &vec![]);
    assert_eq!(wait_for_task(&before, "abc123", false), WaitStep::SleepMillis(250));
    assert_eq!(wait_for_task(&before, "abc123", true), WaitStep::TimedOut);
    let after = existing_hashes(&executable(), &vec![file]);
    assert_eq!(wait_for_task(&after, "abc123", false), WaitStep::Found);
    assert_eq!(wait_for_task(&after, "abc123", true), WaitStep::Found);
}
