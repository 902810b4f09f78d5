//! The executable of BitComet.

use mikan::bitcomet::executable::{
    detect, executable_names, find_in_directory, is_executable, is_supported, version,
    version_parts, version_parts_supported, version_requirement_error, Executable,
};
use mikan::util::PathFacts;

fn file(path: &str) -> PathFacts {
    PathFacts {
        path: path.to_string(),
        file_name: path.rsplit('\\').next().map(|name| name.to_string()),
        parent: None,
        parent_is_dir: true,
        is_file: true,
        is_dir: false,
        exists: true,
    }
}

fn missing(path: &str) -> PathFacts {
    PathFacts { is_file: false, exists: false, ..file(path) }
}

fn installed(path: &str, version: (u16, u16, u16, u16)) -> Executable {
    Executable { facts: file(path), version: Some(version) }
}

#[test]
fn requires_a_version_strictly_higher_than_2_09() {
    assert!(!version_parts_supported((2, 9, 9, 0)));
    assert!(version_parts_supported((2, 10, 0, 0)));
    assert!(version_parts_supported((3, 0, 0, 0)));
}

#[test]
fn knows_both_names_of_the_executable() {
    assert!(is_executable(&file(r"C:\BitComet\BitComet.exe")));
    assert!(is_executable(&file(r"C:\BitComet\BITCOMET_X64.EXE")));
    assert!(!is_executable(&file(r"C:\BitComet\uninstall.exe")));
    assert!(!is_executable(&missing(r"C:\BitComet\BitComet.exe")));
}

#[test]
fn writes_versions() {
    assert_eq!(version(&installed(r"C:\BitComet.exe", (2, 10, 0, 0))).as_deref(), Some("2.10"));
    assert_eq!(version(&installed(r"C:\BitComet.exe", (2, 10, 0, 1))).as_deref(), Some("2.10.0"));
    assert_eq!(version(&installed(r"C:\BitComet.exe", (2, 11, 7, 3))).as_deref(), Some("2.11.7"));
    assert_eq!(version(&installed(r"C:\other.exe", (2, 11, 7, 3))), None);
    assert_eq!(version_parts(0x0002_000b, 0x0007_0003), (2, 11, 7, 3));
}

#[test]
fn finds_fault_with_old_and_unreadable_versions() {
    let old = installed(r"C:\BitComet.exe", (2, 9, 0, 0));
    assert!(!is_supported(&old));
    assert_eq!(
        version_requirement_error(&old).as_deref(),
        Some("BitComet 版本必须高于 2.09，当前版本为 2.9")
    );
    let unreadable = Executable { facts: file(r"C:\BitComet.exe"), version: None };
    assert_eq!(
        version_requirement_error(&unreadable).as_deref(),
        Some("无法读取 BitComet 版本，要求版本高于 2.09")
    );
    assert_eq!(version_requirement_error(&installed(r"C:\other.exe", (1, 0, 0, 0))), None);
    assert_eq!(version_requirement_error(&installed(r"C:\BitComet.exe", (2, 10, 0, 0))), None);
}

#[test]
fn prefers_the_64_bit_executable_of_a_folder() {
    assert_eq!(executable_names(), vec!["BitComet_x64.exe", "BitComet.exe"]);
    let both = vec![file(r"C:\B\BitComet_x64.exe"), file(r"C:\B\BitComet.exe")];
    assert_eq!(find_in_directory(&both).as_deref(), Some(r"C:\B\BitComet_x64.exe"));
    let one = vec![missing(r"C:\B\BitComet_x64.exe"), file(r"C:\B\BitComet.exe")];
    assert_eq!(find_in_directory(&one).as_deref(), Some(r"C:\B\BitComet.exe"));
    assert_eq!(find_in_directory(&vec![]), None);
}

#[test]
fn detects_the_first_supported_candidate() {
    let candidates = vec![
        installed(r"C:\old\BitComet.exe", (2, 9, 0, 0)),
        Executable { facts: missing(r"C:\gone\BitComet.exe"), version: None },
        installed(r"C:\new\BitComet.exe", (2, 10, 0, 0)),
        installed(r"C:\newer\BitComet.exe", (2, 20, 0, 0)),
    ];
    assert_eq!(detect(&candidates), r"C:\new\BitComet.exe");
    assert_eq!(detect(&vec![]), "");
}

#[test]
fn passes_over_a_path_that_differs_in_case_only() {
    let candidates = vec![
        Executable { facts: missing(r"C:\App\BitComet.exe"), version: None },
        installed(r"c:\app\bitcomet.exe", (2, 10, 0, 0)),
    ];
    assert_eq!(detect(&candidates), "");
}
