//! XML documents and how deeply they are nested.

use mikan::bitcomet::tasks::parse_tasks;
use mikan::bitcomet::webui::webui_config;
use mikan::nesting::{nesting, DEEPEST_NESTING};
use mikan::rss::parse;
use mikan::xml::read_document;

fn nested(levels: usize, inside: &str) -> String {
    format!("{}{inside}{}", "<a>".repeat(levels), "</a>".repeat(levels))
}

#[test]
fn counts_the_levels_of_a_document() {
    assert_eq!(nesting(""), 0);
    assert_eq!(nesting("<a/>"), 1);
    assert_eq!(nesting("<a><b/><b/><c></c></a>"), 2);
    assert_eq!(nesting("<a b='/>' c=\"'>\"><b d=\"/>\"></b></a>"), 2);
    assert_eq!(nesting("<?xml version=\"1.0\"?><!-- <x><y> --><a><![CDATA[<b><c>]]></a>"), 1);
    assert_eq!(nesting("<a><!--</a>--><a><?x </a>?><a><![CDATA[</a>]]><a>"), 4);
    assert_eq!(nesting(&nested(300, "")), 300);
}

#[test]
fn reads_documents_up_to_the_deepest_level() {
    assert_eq!(read_document(&nested(DEEPEST_NESTING, "x")).unwrap().len(), DEEPEST_NESTING + 2);
    assert!(read_document(&nested(DEEPEST_NESTING + 1, "x")).is_none());
    assert!(read_document("<a>").is_none());
}

#[test]
fn refuses_documents_that_are_nested_too_deeply() {
    let deep = nested(300_000, "");
    assert!(parse(&deep).is_err());
    assert!(parse_tasks(&deep).is_none());
    assert!(parse_tasks(&format!("<Tasks>{}</Tasks>", nested(300_000, ""))).is_none());
    assert_eq!(webui_config(&vec![deep.clone().into_bytes()], "").ports, vec![2333, 8080]);
    let hidden = "<a b=\"/>\"><!--</a>-->".repeat(100_000);
    assert!(read_document(&hidden).is_none());
}
