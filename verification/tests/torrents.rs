//! Torrent files.

use mikan::torrent::{
    parse_integer, parse_metadata, skip_collection, skip_value, sum_file_lengths, TorrentError,
};
use sha1::{Digest, Sha1};

#[test]
fn returns_canonical_infohash_and_name() {
    let info = b"d6:lengthi12345e4:name11:example.mkv12:piece lengthi16384e6:pieces20:abcdefghijklmnopqrste";
    let mut torrent = b"d8:announce32:https://tracker.example/announce4:info".to_vec();
    torrent.extend(info);
    torrent.push(b'e');
    let metadata = parse_metadata(&torrent).unwrap();
    assert_eq!(metadata.name, "example.mkv");
    assert_eq!(metadata.total_bytes, 12345);
    assert_eq!(metadata.info_hash, hex::encode(Sha1::digest(info)));
}

#[test]
fn sums_multi_file_lengths() {
    let info =
        b"d5:filesld6:lengthi10e4:pathl5:a.mkveed6:lengthi25e4:pathl5:b.mkveee4:name4:showe";
    let mut torrent = b"d4:info".to_vec();
    torrent.extend(info);
    torrent.push(b'e');

    let metadata = parse_metadata(&torrent).unwrap();
    assert_eq!(metadata.total_bytes, 35);
}

fn with_info(info: &[u8]) -> Vec<u8> {
    let mut torrent = b"d4:info".to_vec();
    torrent.extend(info);
    torrent.push(b'e');
    torrent
}

#[test]
fn reads_a_torrent_without_a_name() {
    let metadata = parse_metadata(&with_info(b"d6:lengthi7ee")).unwrap();
    assert_eq!(metadata.name, "");
    assert_eq!(metadata.total_bytes, 7);
}

#[test]
fn refuses_what_is_no_torrent() {
    let fault = |bytes: &[u8]| parse_metadata(bytes).err().unwrap();
    assert_eq!(fault(b""), "Torrent root is not a bencoded dictionary");
    assert_eq!(fault(b"i1e"), "Torrent root is not a bencoded dictionary");
    assert_eq!(fault(b"d4:name1:ae"), "Torrent is missing info dictionary");
    assert_eq!(fault(b"d4:infoi1ee"), "Torrent info is not a bencoded dictionary");
    assert_eq!(fault(b"d4:infod4:name1:aee"), "Torrent info does not contain file sizes");
    assert_eq!(fault(b"d4:infod5:filesi1eee"), "Torrent files value is not a list");
    assert_eq!(fault(b"d4:infod5:filesli1eeee"), "Torrent file entry is not a dictionary");
    assert_eq!(fault(b"d4:infod5:filesld4:pathl1:aeeeee"), "Torrent file is missing length");
    assert_eq!(
        fault(b"d4:infod5:filesld6:lengthi18446744073709551615eed6:lengthi1eeeee"),
        "Torrent total size is too large"
    );
    assert_eq!(fault(b"d4:infod6:lengthi-1eee"), "Invalid bencode integer");
    assert_eq!(fault(b"d4:infod6:lengthi12"), "Unterminated bencode integer");
    assert_eq!(fault(b"dx:"), "Invalid bencode string length");
    assert_eq!(fault(b"d9:info"), "Bencode string exceeds buffer length");
    assert_eq!(fault(b"d4:info"), "Unexpected end of bencode data");
    assert_eq!(fault(b"d4:infoxe"), "Invalid bencode marker at 7");
}

#[test]
fn keeps_bytes_of_a_name_that_are_no_text() {
    let metadata = parse_metadata(&with_info(b"d6:lengthi1e4:name2:a\xffe")).unwrap();
    assert_eq!(metadata.name, "a\u{fffd}");
}

#[test]
fn finds_the_end_of_a_value() {
    assert_eq!(skip_value(b"d1:ali1eld1:bi2eeee1:c0:ex", 0).ok(), Some(25));
    assert_eq!(skip_value(b"li1e1:ae4:spam", 0).ok(), Some(8));
    assert!(matches!(skip_value(b"ld1:ae", 0), Err(TorrentError::InvalidMarker(5))));
    assert!(matches!(skip_value(b"lli1e", 0), Err(TorrentError::UnexpectedEnd)));
    assert!(matches!(skip_value(b"ld1e", 0), Err(TorrentError::InvalidStringLength)));
    assert!(matches!(skip_value(b"i1", 0), Err(TorrentError::UnterminatedInteger)));
}

#[test]
fn refuses_a_place_behind_the_end() {
    assert!(matches!(skip_value(b"i1e", 9), Err(TorrentError::UnexpectedEnd)));
    assert!(matches!(skip_collection(b"i1e", 9, false), Err(TorrentError::UnexpectedEnd)));
    assert!(matches!(parse_integer(b"i1e", 9), Err(TorrentError::InvalidInteger)));
    assert!(matches!(sum_file_lengths(b"le", 9), Err(TorrentError::FilesNotList)));
}

#[test]
fn walks_through_lists_however_deep() {
    let depth = 1_000_000;
    let mut bytes = vec![b'l'; depth];
    bytes.extend(vec![b'e'; depth]);
    assert_eq!(skip_value(&bytes, 0).ok(), Some(2 * depth));
}

#[test]
fn gives_an_info_hash_of_forty_digits() {
    let metadata = parse_metadata(&with_info(b"d6:lengthi1ee")).unwrap();
    assert_eq!(metadata.info_hash.len(), 40);
    assert!(metadata.info_hash.chars().all(|c| matches!(c, '0'..='9' | 'a'..='f')));
}
