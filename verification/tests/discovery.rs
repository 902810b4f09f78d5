//! Where BitComet is looked for.

use mikan::bitcomet::discovery::{
    bitcomet_xml_candidates, common_candidates, detection_candidates, downloads_xml_candidates,
    listed_candidates, newest_first, registry_candidates, registry_queries, Folder, FoundFile,
};

fn some(text: &str) -> Option<String> {
    Some(text.to_string())
}

#[test]
fn asks_the_registry_in_four_places() {
    let queries = registry_queries();
    assert_eq!(queries.len(), 4);
    assert_eq!(queries[0], vec!["query", r"HKCR\magnet\shell\open\command", "/ve"]);
    assert_eq!(
        queries[3],
        vec![
            "query",
            r"HKLM\Software\WOW6432Node\Microsoft\Windows\CurrentVersion\Uninstall",
            "/s"
        ]
    );
}

#[test]
fn finds_paths_and_folders_in_a_listing() {
    let listing = "    (Default)    REG_SZ    \"C:\\Program Files\\BitComet\\BitComet.exe\" \"%1\"\r\n\
                   InstallLocation    REG_SZ    D:\\Apps \r\n\
                   InstallLocation without a value\r\n\
                   Other    REG_SZ    E:\\x\r\n\
                   c:\\b\\bitcomet_X64.EXE\r\n";
    assert_eq!(
        registry_candidates(listing.as_bytes()),
        vec![
            vec![r"C:\Program Files\BitComet\BitComet.exe"],
            vec![r"c:\b\bitcomet_X64.EXE"],
            vec![r"D:\Apps", "BitComet_x64.exe"],
            vec![r"D:\Apps", "BitComet.exe"],
        ]
    );
    assert!(registry_candidates(&[0xff, 0x41]).is_empty());
}

#[test]
fn takes_quotation_marks_off() {
    assert_eq!(
        listed_candidates(&vec!["\"C:\\a.exe\"".to_string()], ""),
        vec![vec!["C:\\a.exe"]]
    );
}

#[test]
fn knows_the_usual_places() {
    let places = common_candidates(&some("P"), &None, &some("L"), &None);
    assert_eq!(places.len(), 12);
    assert_eq!(places[0], vec!["P", "BitComet", "BitComet_x64.exe"]);
    assert_eq!(places[1], vec!["P", "BitComet", "BitComet.exe"]);
    assert_eq!(places[4], vec!["P", "", "BitComet_x64.exe"]);
    assert_eq!(places[6], vec!["L", "Programs", "BitComet", "BitComet_x64.exe"]);
    assert_eq!(places[11], vec!["L", "Programs", "", "BitComet.exe"]);
}

#[test]
fn tries_the_configured_path_first() {
    let registry = vec![vec!["r".to_string()]];
    let common = vec![vec!["c".to_string(), "d".to_string()]];
    assert_eq!(
        detection_candidates("s", registry.clone(), common.clone()),
        vec![vec!["s"], vec!["r"], vec!["c", "d"]]
    );
    assert_eq!(detection_candidates("", registry, common), vec![vec!["r"], vec!["c", "d"]]);
}

#[test]
fn looks_for_files_in_three_places() {
    let folder = Some(Folder {
        path: r"C:\Apps\B".to_string(),
        names: vec!["Apps".to_string(), "B".to_string()],
    });
    assert_eq!(
        downloads_xml_candidates(&folder, &some("L"), &some("A")),
        vec![
            vec![r"C:\Apps\B", "Downloads.xml"],
            vec!["L", "VirtualStore", "Apps", "B", "Downloads.xml"],
            vec!["A", "BitComet", "Downloads.xml"],
        ]
    );
    assert_eq!(
        bitcomet_xml_candidates(&None, &some("L"), &some("A")),
        vec![vec!["A", "BitComet", "BitComet.xml"]]
    );
    assert!(bitcomet_xml_candidates(&None, &some("L"), &None).is_empty());
}

#[test]
fn reads_the_latest_file_first() {
    let file = |path: &str, is_file: bool, modified: Option<i128>| FoundFile {
        path: path.to_string(),
        is_file,
        modified,
    };
    let candidates = vec![
        file("unknown", true, None),
        file("old", true, Some(-1)),
        file("folder", false, Some(9)),
        file("new", true, Some(7)),
        file("also new", true, Some(7)),
    ];
    assert_eq!(newest_first(&candidates), vec!["new", "also new", "old", "unknown"]);
    assert!(newest_first(&vec![]).is_empty());
}
