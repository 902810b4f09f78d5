//! Identifiers, file names, secrets and folders.

use mikan::clock::Moment;
use mikan::util::{
    backup_extension, existing_folder, item_id_for, mask_url, now_iso, redact_secrets,
    sanitize_filename, strip_byte_order_mark, temporary_extension, unreadable_message, PathFacts,
};

#[test]
fn makes_identifiers_of_keys() {
    assert_eq!(item_id_for("g1"), "711430f6164e9380");
    assert_ne!(item_id_for("g1"), item_id_for("g2"));
}

#[test]
fn hides_secrets() {
    assert_eq!(mask_url("https://e/?Token=abc&x=1&key=k"), "https://e/?Token=***&x=1&key=***");
    assert_eq!(mask_url("https://e/?x=token"), "https://e/?x=token");
    assert_eq!(
        redact_secrets("GET https://e/?password=p failed"),
        "GET https://e/?password=[redacted] failed"
    );
}

#[test]
fn makes_file_names_of_titles() {
    assert_eq!(sanitize_filename("  a<b>:\"/\\|?*\tc \n d  "), "a_b_________c _ d");
    assert_eq!(sanitize_filename(" \u{3000} "), "torrent");
    assert_eq!(sanitize_filename(""), "torrent");
    assert_eq!(sanitize_filename("示 例"), "示 例");
    assert_eq!(sanitize_filename(&"x".repeat(200)), "x".repeat(150));
}

#[test]
fn leaves_file_names_as_they_are() {
    let name = sanitize_filename("a  b?c");
    assert_eq!(sanitize_filename(&name), name);
    let cut = sanitize_filename(&format!("{} b", "a".repeat(149)));
    assert_eq!(cut, format!("{} ", "a".repeat(149)));
    assert_eq!(sanitize_filename(&cut), "a".repeat(149));
}

#[test]
fn tells_the_time() {
    let now = now_iso();
    assert_eq!(now.len(), 24);
    assert!(now.ends_with('Z'));
    let moment = Moment::after_millis(1_700_000_000_123).unwrap();
    assert_eq!(moment.text(), "2023-11-14T22:13:20.123Z");
    assert_eq!(moment.millis(), 1_700_000_000_123);
    assert!(Moment::after_millis(-1).is_none());
    assert!(Moment::now().millis() > 1_700_000_000_000);
}

fn facts() -> PathFacts {
    PathFacts {
        path: "p".to_string(),
        file_name: None,
        parent: Some("parent".to_string()),
        parent_is_dir: false,
        is_file: false,
        is_dir: false,
        exists: false,
    }
}

#[test]
fn finds_the_folder_of_a_path() {
    assert_eq!(existing_folder(&facts()), None);
    assert_eq!(existing_folder(&PathFacts { is_dir: true, ..facts() }).as_deref(), Some("p"));
    assert_eq!(existing_folder(&PathFacts { is_file: true, ..facts() }).as_deref(), Some("parent"));
    assert_eq!(
        existing_folder(&PathFacts { parent_is_dir: true, ..facts() }).as_deref(),
        Some("parent")
    );
    let nowhere = PathFacts { path: String::new(), is_dir: true, ..facts() };
    assert_eq!(existing_folder(&nowhere), None);
}

#[test]
fn names_the_files_beside_a_file() {
    assert_eq!(backup_extension(&Some("json".to_string())), "json.bak");
    assert_eq!(backup_extension(&None), "bak");
    assert_eq!(temporary_extension(42), "42.tmp");
    assert_eq!(unreadable_message("a", "b"), "状态文件和备份都无法读取：a；备份错误：b");
    assert_eq!(strip_byte_order_mark("\u{feff}\u{feff}{}"), "{}");
}
