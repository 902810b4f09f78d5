//! The feed.

use mikan::rss::{parse, parse_response, validate_xml};

#[test]
fn parses_mikan_enclosure() {
    let items = parse(
        r#"<rss><channel><item><title>示例</title><guid>g1</guid>
            <enclosure url="https://example.test/a.torrent"/></item></channel></rss>"#,
    )
    .unwrap();
    assert_eq!(items.len(), 1);
    assert_eq!(items[0].title, "示例");
    assert_eq!(items[0].unique_key, "g1");
    assert_eq!(items[0].enclosure_url, "https://example.test/a.torrent");
}

#[test]
fn parses_mikan_torrent_metadata() {
    let items = parse(
        r#"<rss><channel><item><title>示例</title><guid>g1</guid>
            <torrent xmlns="https://mikanani.me/0.1/"><contentLength>938360192</contentLength>
            <pubDate>2026-07-31T01:35:21.104</pubDate></torrent>
            <enclosure length="938360192" url="https://example.test/a.torrent"/></item></channel></rss>"#,
    )
    .unwrap();
    assert_eq!(items[0].pub_date, "2026-07-31T01:35:21.104");
    assert_eq!(items[0].total_bytes, Some(938_360_192));
}

#[test]
fn validates_downloadable_items() {
    assert!(validate_xml(
        r#"<rss><channel><item><title>x</title><torrent>https://e/a.torrent</torrent></item></channel></rss>"#
    )
    .is_ok());
    assert_eq!(
        validate_xml(r#"<rss><channel><item><title>x</title></item></channel></rss>"#)
            .unwrap_err(),
        "RSS 中没有可下载的 torrent 条目"
    );
}

#[test]
fn refuses_what_is_no_feed() {
    assert_eq!(parse("not xml").unwrap_err(), "返回内容不是有效 XML");
    assert_eq!(parse("<html/>").unwrap_err(), "返回内容不是 RSS 订阅");
    assert_eq!(
        validate_xml("<rss><channel/></rss>").unwrap_err(),
        "RSS 中没有可识别的订阅条目"
    );
    let fault = parse_response(&[0xff]).unwrap_err();
    assert!(fault.starts_with("RSS response is not valid UTF-8: "));
    assert!(fault.len() > "RSS response is not valid UTF-8: ".len());
}

#[test]
fn names_an_item_after_what_it_has() {
    let items = parse(
        r#"<rss><channel>
            <item><link> https://e/page </link></item>
            <item><link>https://e/File.TORRENT?x=1</link><title>t</title></item>
            <item><title> </title></item>
            <item><torrent url=" https://e/b.torrent "/><enclosure length="x"/></item>
        </channel></rss>"#,
    )
    .unwrap();
    assert_eq!(items.len(), 3);
    assert_eq!(items[0].unique_key, "https://e/page");
    assert_eq!(items[0].title, "https://e/page");
    assert_eq!(items[0].enclosure_url, "");
    assert_eq!(items[1].unique_key, "https://e/File.TORRENT?x=1");
    assert_eq!(items[1].title, "t");
    assert_eq!(items[1].enclosure_url, "https://e/File.TORRENT?x=1");
    assert_eq!(items[2].enclosure_url, "https://e/b.torrent");
    assert_eq!(items[2].total_bytes, None);
}

#[test]
fn reads_a_response_with_text_in_utf_8() {
    let items = parse_response("<rss><channel><item><guid>示</guid></item></channel></rss>".as_bytes())
        .unwrap();
    assert_eq!(items[0].guid, "示");
}
