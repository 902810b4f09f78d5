//! Reading torrent files: the bencoded dictionary, the digest of its `info`
//! value, the name and the size of what it describes.

use vstd::prelude::*;
use vstd::slice::slice_subrange;

use crate::number::{decimal, decimal_text, decimal_value, parse_decimal};
use crate::outside::{
    hex_encode, hex_text, lossy_text_of, sha1_digest, sha1_of, text_from_utf8_lossy,
};
use crate::text::{is_hex, joined, lemma_hex_text};

verus! {

/// What a torrent file says of its contents.
pub struct TorrentMetadata {
    pub info_hash: String,
    pub name: String,
    pub total_bytes: u64,
}

/// The contents of a `TorrentMetadata`.
pub struct MetadataView {
    pub info_hash: Seq<char>,
    pub name: Seq<char>,
    pub total_bytes: nat,
}

impl View for TorrentMetadata {
    type V = MetadataView;

    open spec fn view(&self) -> MetadataView {
        MetadataView {
            info_hash: self.info_hash@,
            name: self.name@,
            total_bytes: self.total_bytes as nat,
        }
    }
}

/// Why a torrent file cannot be read.
pub enum TorrentError {
    RootNotDictionary,
    MissingInfo,
    InfoNotDictionary,
    NoFileSizes,
    FilesNotList,
    EntryNotDictionary,
    MissingLength,
    TotalTooLarge,
    InvalidInteger,
    UnterminatedInteger,
    InvalidStringLength,
    StringTooLong,
    UnexpectedEnd,
    InvalidMarker(usize),
}

impl TorrentError {
    /// The words in which an error is reported.
    pub open spec fn text(self) -> Seq<char> {
        match self {
            TorrentError::RootNotDictionary => "Torrent root is not a bencoded dictionary"@,
            TorrentError::MissingInfo => "Torrent is missing info dictionary"@,
            TorrentError::InfoNotDictionary => "Torrent info is not a bencoded dictionary"@,
            TorrentError::NoFileSizes => "Torrent info does not contain file sizes"@,
            TorrentError::FilesNotList => "Torrent files value is not a list"@,
            TorrentError::EntryNotDictionary => "Torrent file entry is not a dictionary"@,
            TorrentError::MissingLength => "Torrent file is missing length"@,
            TorrentError::TotalTooLarge => "Torrent total size is too large"@,
            TorrentError::InvalidInteger => "Invalid bencode integer"@,
            TorrentError::UnterminatedInteger => "Unterminated bencode integer"@,
            TorrentError::InvalidStringLength => "Invalid bencode string length"@,
            TorrentError::StringTooLong => "Bencode string exceeds buffer length"@,
            TorrentError::UnexpectedEnd => "Unexpected end of bencode data"@,
            TorrentError::InvalidMarker(offset) => "Invalid bencode marker at "@ + decimal_text(
                offset as nat,
            ),
        }
    }

    /// The words in which the error is reported.
    pub fn message(&self) -> (r: String)
        ensures
            r@ == self.text(),
    {
        match self {
            TorrentError::RootNotDictionary => "Torrent root is not a bencoded dictionary".to_string(),
            TorrentError::MissingInfo => "Torrent is missing info dictionary".to_string(),
            TorrentError::InfoNotDictionary => "Torrent info is not a bencoded dictionary".to_string(),
            TorrentError::NoFileSizes => "Torrent info does not contain file sizes".to_string(),
            TorrentError::FilesNotList => "Torrent files value is not a list".to_string(),
            TorrentError::EntryNotDictionary => "Torrent file entry is not a dictionary".to_string(),
            TorrentError::MissingLength => "Torrent file is missing length".to_string(),
            TorrentError::TotalTooLarge => "Torrent total size is too large".to_string(),
            TorrentError::InvalidInteger => "Invalid bencode integer".to_string(),
            TorrentError::UnterminatedInteger => "Unterminated bencode integer".to_string(),
            TorrentError::InvalidStringLength => "Invalid bencode string length".to_string(),
            TorrentError::StringTooLong => "Bencode string exceeds buffer length".to_string(),
            TorrentError::UnexpectedEnd => "Unexpected end of bencode data".to_string(),
            TorrentError::InvalidMarker(offset) => {
                joined("Invalid bencode marker at ", &decimal(*offset as u64))
            },
        }
    }
}

/// The dictionary key `info`.
pub open spec fn key_info() -> Seq<u8> {
    seq![0x69, 0x6e, 0x66, 0x6f]
}

/// The dictionary key `name`.
pub open spec fn key_name() -> Seq<u8> {
    seq![0x6e, 0x61, 0x6d, 0x65]
}

/// The dictionary key `length`.
pub open spec fn key_length() -> Seq<u8> {
    seq![0x6c, 0x65, 0x6e, 0x67, 0x74, 0x68]
}

/// The dictionary key `files`.
pub open spec fn key_files() -> Seq<u8> {
    seq![0x66, 0x69, 0x6c, 0x65, 0x73]
}

/// The first position from `from` on at which a byte stands, or the length.
pub open spec fn find_byte(bytes: Seq<u8>, byte: u8, from: int) -> int
    decreases bytes.len() - from,
{
    if from < 0 || from >= bytes.len() {
        bytes.len() as int
    } else if bytes[from] == byte {
        from
    } else {
        find_byte(bytes, byte, from + 1)
    }
}

/// Whether a byte stands at a position.
pub open spec fn has_byte(bytes: Seq<u8>, at: int, byte: u8) -> bool {
    0 <= at < bytes.len() && bytes[at] == byte
}

/// The byte string that begins at `at`, as the range of its contents: a
/// decimal length, a colon, then that many bytes.
pub open spec fn string_at(bytes: Seq<u8>, at: int) -> Result<(int, int), TorrentError> {
    let colon = find_byte(bytes, 0x3a, at);
    if colon >= bytes.len() {
        Err(TorrentError::InvalidStringLength)
    } else {
        match decimal_value(bytes.subrange(at, colon), usize::MAX as nat) {
            None => Err(TorrentError::InvalidStringLength),
            Some(length) => if colon + 1 + length > bytes.len() {
                Err(TorrentError::StringTooLong)
            } else {
                Ok((colon + 1, colon + 1 + length as int))
            },
        }
    }
}

/// The unsigned integer that begins at `at`, and the position behind it.
pub open spec fn integer_at(bytes: Seq<u8>, at: int) -> Result<(nat, int), TorrentError> {
    if !has_byte(bytes, at, 0x69) {
        Err(TorrentError::InvalidInteger)
    } else {
        let end = find_byte(bytes, 0x65, at + 1);
        if end >= bytes.len() {
            Err(TorrentError::UnterminatedInteger)
        } else {
            match decimal_value(bytes.subrange(at + 1, end), u64::MAX as nat) {
                None => Err(TorrentError::InvalidInteger),
                Some(value) => Ok((value, end + 1)),
            }
        }
    }
}

/// The position behind the value that begins at `at`.
pub open spec fn value_end(bytes: Seq<u8>, at: int) -> Result<int, TorrentError>
    decreases bytes.len() - at, 0int,
{
    if at < 0 || at >= bytes.len() {
        Err(TorrentError::UnexpectedEnd)
    } else if 0x30 <= bytes[at] <= 0x39 {
        match string_at(bytes, at) {
            Ok((_, end)) => Ok(end),
            Err(error) => Err(error),
        }
    } else if bytes[at] == 0x69 {
        let end = find_byte(bytes, 0x65, at + 1);
        if end >= bytes.len() {
            Err(TorrentError::UnterminatedInteger)
        } else {
            Ok(end + 1)
        }
    } else if bytes[at] == 0x6c {
        collection_end(bytes, at + 1, false)
    } else if bytes[at] == 0x64 {
        collection_end(bytes, at + 1, true)
    } else {
        Err(TorrentError::InvalidMarker(at as usize))
    }
}

/// The position behind the list or dictionary whose next element begins at
/// `at`.
pub open spec fn collection_end(bytes: Seq<u8>, at: int, dictionary: bool) -> Result<
    int,
    TorrentError,
>
    decreases bytes.len() - at, 1int,
{
    if has_byte(bytes, at, 0x65) {
        Ok(at + 1)
    } else {
        match if dictionary {
            string_at(bytes, at)
        } else {
            Ok((at, at))
        } {
            Err(error) => Err(error),
            // No key ends before it begins, and no value is empty.
            Ok((_, start)) => if start < at || start > bytes.len() {
                Err(TorrentError::UnexpectedEnd)
            } else {
                match value_end(bytes, start) {
                    Err(error) => Err(error),
                    Ok(next) => if next <= at || next > bytes.len() {
                        Err(TorrentError::UnexpectedEnd)
                    } else {
                        collection_end(bytes, next, dictionary)
                    },
                }
            },
        }
    }
}

/// One entry of a dictionary: the range of its key and that of its value.
pub struct Entry {
    pub key: (int, int),
    pub value: (int, int),
}

/// The entry of a dictionary that begins at `at`.
pub open spec fn entry_at(bytes: Seq<u8>, at: int) -> Result<Entry, TorrentError> {
    match string_at(bytes, at) {
        Err(error) => Err(error),
        Ok(key) => match value_end(bytes, key.1) {
            Err(error) => Err(error),
            Ok(end) => Ok(Entry { key, value: (key.1, end) }),
        },
    }
}

/// Whether the key in a range is a given one.
pub open spec fn key_is(bytes: Seq<u8>, key: (int, int), wanted: Seq<u8>) -> bool {
    bytes.subrange(key.0, key.1) == wanted
}

/// The range of the last `info` value of a root dictionary, read from `at`
/// on, where `found` is the one seen before.
pub open spec fn info_range(bytes: Seq<u8>, at: int, found: Option<(int, int)>) -> Result<
    Option<(int, int)>,
    TorrentError,
>
    decreases bytes.len() - at,
{
    if at < 0 || at >= bytes.len() || bytes[at] == 0x65 {
        Ok(found)
    } else {
        match entry_at(bytes, at) {
            Err(error) => Err(error),
            Ok(entry) => {
                proof {
                    lemma_string_at(bytes, at);
                    lemma_value_end(bytes, entry.key.1);
                }
                let found = if key_is(bytes, entry.key, key_info()) {
                    Some(entry.value)
                } else {
                    found
                };
                info_range(bytes, entry.value.1, found)
            },
        }
    }
}

/// The bytes of the first `name` in an `info` dictionary, read from `at` on;
/// none where there is none or the dictionary is broken before it.
pub open spec fn name_bytes(info: Seq<u8>, at: int) -> Option<Seq<u8>>
    decreases info.len() - at,
{
    if at < 0 || at >= info.len() || info[at] == 0x65 {
        None
    } else {
        match string_at(info, at) {
            Err(_) => None,
            Ok(key) => if key_is(info, key, key_name()) {
                match string_at(info, key.1) {
                    Err(_) => None,
                    Ok(value) => Some(info.subrange(value.0, value.1)),
                }
            } else {
                match value_end(info, key.1) {
                    Err(_) => None,
                    Ok(end) => {
                        proof {
                            lemma_string_at(info, at);
                            lemma_value_end(info, key.1);
                        }
                        name_bytes(info, end)
                    },
                }
            },
        }
    }
}

/// The name that an `info` value gives, empty where it gives none.
pub open spec fn name_of(info: Seq<u8>) -> Seq<char> {
    if !has_byte(info, 0, 0x64) {
        Seq::empty()
    } else {
        match name_bytes(info, 1) {
            None => Seq::empty(),
            Some(name) => lossy_text_of(name),
        }
    }
}

/// The last `length` of a file's dictionary, read from `at` on, and the
/// position of the dictionary's end mark.
pub open spec fn file_length(bytes: Seq<u8>, at: int, found: Option<nat>) -> Result<
    (Option<nat>, int),
    TorrentError,
>
    decreases bytes.len() - at,
{
    if has_byte(bytes, at, 0x65) {
        Ok((found, at))
    } else if at < 0 || at > bytes.len() {
        Err(TorrentError::UnexpectedEnd)
    } else {
        match string_at(bytes, at) {
            Err(error) => Err(error),
            Ok(key) => {
                let length = if key_is(bytes, key, key_length()) {
                    match integer_at(bytes, key.1) {
                        Err(error) => Err(error),
                        Ok((value, _)) => Ok(Some(value)),
                    }
                } else {
                    Ok(found)
                };
                match length {
                    Err(error) => Err(error),
                    Ok(length) => match value_end(bytes, key.1) {
                        Err(error) => Err(error),
                        Ok(end) => {
                            proof {
                                lemma_string_at(bytes, at);
                                lemma_value_end(bytes, key.1);
                            }
                            file_length(bytes, end, length)
                        },
                    },
                }
            },
        }
    }
}

/// The sum of the file lengths of a list of files, read from the entry at
/// `at` on, where `total` is the sum of those before.
pub open spec fn files_total(bytes: Seq<u8>, at: int, total: nat) -> Result<nat, TorrentError>
    decreases bytes.len() - at,
{
    if has_byte(bytes, at, 0x65) {
        Ok(total)
    } else if !has_byte(bytes, at, 0x64) {
        Err(TorrentError::EntryNotDictionary)
    } else {
        match file_length(bytes, at + 1, None) {
            Err(error) => Err(error),
            Ok((None, _)) => Err(TorrentError::MissingLength),
            Ok((Some(length), end)) => if total + length > u64::MAX {
                Err(TorrentError::TotalTooLarge)
            } else {
                proof {
                    lemma_file_length(bytes, at + 1, None);
                }
                files_total(bytes, end + 1, total + length)
            },
        }
    }
}

/// The size that an `info` dictionary gives, read from `at` on: the sum of
/// its files, or else its last `length`, `found` being the one seen before.
pub open spec fn total_length(info: Seq<u8>, at: int, found: Option<nat>) -> Result<
    nat,
    TorrentError,
>
    decreases info.len() - at,
{
    if at < 0 || at >= info.len() || info[at] == 0x65 {
        match found {
            Some(length) => Ok(length),
            None => Err(TorrentError::NoFileSizes),
        }
    } else {
        match string_at(info, at) {
            Err(error) => Err(error),
            Ok(key) => if key_is(info, key, key_files()) {
                if has_byte(info, key.1, 0x6c) {
                    files_total(info, key.1 + 1, 0)
                } else {
                    Err(TorrentError::FilesNotList)
                }
            } else {
                let length = if key_is(info, key, key_length()) {
                    match integer_at(info, key.1) {
                        Err(error) => Err(error),
                        Ok((value, _)) => Ok(Some(value)),
                    }
                } else {
                    Ok(found)
                };
                match length {
                    Err(error) => Err(error),
                    Ok(length) => match value_end(info, key.1) {
                        Err(error) => Err(error),
                        Ok(end) => {
                            proof {
                                lemma_string_at(info, at);
                                lemma_value_end(info, key.1);
                            }
                            total_length(info, end, length)
                        },
                    },
                }
            },
        }
    }
}

/// The size that an `info` value gives.
pub open spec fn info_length(info: Seq<u8>) -> Result<nat, TorrentError> {
    if !has_byte(info, 0, 0x64) {
        Err(TorrentError::InfoNotDictionary)
    } else {
        total_length(info, 1, None)
    }
}

/// What a torrent file says of its contents.
pub open spec fn metadata_of(bytes: Seq<u8>) -> Result<MetadataView, TorrentError> {
    if !has_byte(bytes, 0, 0x64) {
        Err(TorrentError::RootNotDictionary)
    } else {
        match info_range(bytes, 1, None) {
            Err(error) => Err(error),
            Ok(None) => Err(TorrentError::MissingInfo),
            Ok(Some((start, end))) => {
                let info = bytes.subrange(start, end);
                match info_length(info) {
                    Err(error) => Err(error),
                    Ok(total_bytes) => Ok(
                        MetadataView {
                            info_hash: hex_text(sha1_of(info)),
                            name: name_of(info),
                            total_bytes,
                        },
                    ),
                }
            },
        }
    }
}

/// Where a byte is found, it stands, and not before.
pub proof fn lemma_find_byte(bytes: Seq<u8>, byte: u8, from: int)
    requires
        0 <= from <= bytes.len(),
    ensures
        from <= find_byte(bytes, byte, from) <= bytes.len(),
        find_byte(bytes, byte, from) < bytes.len() ==> bytes[find_byte(bytes, byte, from)] == byte,
        forall|i: int| from <= i < find_byte(bytes, byte, from) ==> bytes[i] != byte,
    decreases bytes.len() - from,
{
    if from < bytes.len() && bytes[from] != byte {
        lemma_find_byte(bytes, byte, from + 1);
    }
}

/// A byte string ends behind its beginning, within the bytes.
pub proof fn lemma_string_at(bytes: Seq<u8>, at: int)
    requires
        0 <= at <= bytes.len(),
    ensures
        string_at(bytes, at) matches Ok((start, end)) ==> at < start <= end <= bytes.len(),
{
    lemma_find_byte(bytes, 0x3a, at);
}

/// A value ends behind its beginning, within the bytes.
pub proof fn lemma_value_end(bytes: Seq<u8>, at: int)
    requires
        0 <= at <= bytes.len(),
    ensures
        value_end(bytes, at) matches Ok(end) ==> at < end <= bytes.len(),
    decreases bytes.len() - at, 0int,
{
    if at < bytes.len() {
        lemma_string_at(bytes, at);
        lemma_find_byte(bytes, 0x65, at + 1);
        lemma_collection_end(bytes, at + 1, false);
        lemma_collection_end(bytes, at + 1, true);
    }
}

/// A list or dictionary ends behind its beginning, within the bytes.
pub proof fn lemma_collection_end(bytes: Seq<u8>, at: int, dictionary: bool)
    requires
        0 <= at <= bytes.len(),
    ensures
        collection_end(bytes, at, dictionary) matches Ok(end) ==> at < end <= bytes.len(),
    decreases bytes.len() - at, 1int,
{
    if !has_byte(bytes, at, 0x65) {
        lemma_string_at(bytes, at);
        let start = if dictionary {
            match string_at(bytes, at) {
                Ok((_, end)) => end,
                Err(_) => at,
            }
        } else {
            at
        };
        if let Ok(next) = value_end(bytes, start) {
            lemma_value_end(bytes, start);
            if at < next <= bytes.len() {
                lemma_collection_end(bytes, next, dictionary);
            }
        }
    }
}

/// The end mark of a file's dictionary stands within the bytes.
pub proof fn lemma_file_length(bytes: Seq<u8>, at: int, found: Option<nat>)
    requires
        0 <= at <= bytes.len(),
        found matches Some(length) ==> length <= u64::MAX,
    ensures
        file_length(bytes, at, found) matches Ok((length, end)) ==> at <= end < bytes.len() && (
        length matches Some(value) ==> value <= u64::MAX),
    decreases bytes.len() - at,
{
    if !has_byte(bytes, at, 0x65) {
        lemma_string_at(bytes, at);
        if let Ok(key) = string_at(bytes, at) {
            lemma_value_end(bytes, key.1);
            let length = if key_is(bytes, key, key_length()) {
                match integer_at(bytes, key.1) {
                    Err(_) => None,
                    Ok((value, _)) => Some(value),
                }
            } else {
                found
            };
            if let Ok(end) = value_end(bytes, key.1) {
                if at < bytes.len() {
                    lemma_file_length(bytes, end, length);
                }
            }
        }
    }
}

/// Finds a byte from a position on.
fn position_of(bytes: &[u8], byte: u8, from: usize) -> (r: usize)
    requires
        from <= bytes@.len(),
    ensures
        r == find_byte(bytes@, byte, from as int),
        from <= r <= bytes@.len(),
{
    let mut i: usize = from;
    while i < bytes.len() && bytes[i] != byte
        invariant
            from <= i <= bytes@.len(),
            find_byte(bytes@, byte, i as int) == find_byte(bytes@, byte, from as int),
        decreases bytes@.len() - i,
    {
        i += 1;
    }
    i
}

/// Whether a byte stands at a position.
fn byte_is(bytes: &[u8], at: usize, byte: u8) -> (r: bool)
    ensures
        r == has_byte(bytes@, at as int, byte),
        r ==> at < usize::MAX,
{
    at < bytes.len() && bytes[at] == byte
}

/// Whether the key in a range is a given one.
fn is_key(bytes: &[u8], key: (usize, usize), wanted: &[u8]) -> (r: bool)
    requires
        key.0 <= key.1 <= bytes@.len(),
    ensures
        r == key_is(bytes@, (key.0 as int, key.1 as int), wanted@),
{
    let length: usize = bytes.len();
    if key.1 - key.0 != wanted.len() {
        return false;
    }
    let mut i: usize = 0;
    while i < wanted.len()
        invariant
            i <= wanted@.len(),
            key.0 + wanted@.len() == key.1 <= bytes@.len() == length,
            forall|j: int| 0 <= j < i ==> bytes@[key.0 + j] == wanted@[j],
        decreases wanted@.len() - i,
    {
        if bytes[key.0 + i] != wanted[i] {
            assert(bytes@.subrange(key.0 as int, key.1 as int)[i as int] != wanted@[i as int]);
            return false;
        }
        i += 1;
    }
    assert(bytes@.subrange(key.0 as int, key.1 as int) =~= wanted@);
    true
}

/// The ranges that a result holds, as mathematical integers.
pub open spec fn range_of(r: Result<(usize, usize), TorrentError>) -> Result<
    (int, int),
    TorrentError,
> {
    match r {
        Ok((start, end)) => Ok((start as int, end as int)),
        Err(error) => Err(error),
    }
}

/// The position that a result holds, as a mathematical integer.
pub open spec fn position_in(r: Result<usize, TorrentError>) -> Result<int, TorrentError> {
    match r {
        Ok(end) => Ok(end as int),
        Err(error) => Err(error),
    }
}

/// Reads the byte string that begins at a position: the range of its
/// contents.
pub fn parse_bytes(bytes: &[u8], offset: usize) -> (r: Result<(usize, usize), TorrentError>)
    requires
        offset <= bytes@.len(),
    ensures
        range_of(r) == string_at(bytes@, offset as int),
        r matches Ok((start, end)) ==> offset < start <= end <= bytes@.len(),
{
    proof {
        lemma_string_at(bytes@, offset as int);
    }
    let colon = position_of(bytes, 0x3a, offset);
    if colon >= bytes.len() {
        return Err(TorrentError::InvalidStringLength);
    }
    match parse_decimal(slice_subrange(bytes, offset, colon), usize::MAX as u64) {
        None => Err(TorrentError::InvalidStringLength),
        Some(length) => {
            let start: usize = colon + 1;
            if length > (bytes.len() - start) as u64 {
                Err(TorrentError::StringTooLong)
            } else {
                Ok((start, start + length as usize))
            }
        },
    }
}

/// Reads the unsigned integer that begins at a position.
pub fn parse_integer(bytes: &[u8], offset: usize) -> (r: Result<(u64, usize), TorrentError>)
    ensures
        match r {
            Ok((value, end)) => integer_at(bytes@, offset as int) == Ok::<_, TorrentError>(
                (value as nat, end as int),
            ),
            Err(error) => integer_at(bytes@, offset as int) == Err::<(nat, int), _>(error),
        },
{
    if !byte_is(bytes, offset, 0x69) {
        return Err(TorrentError::InvalidInteger);
    }
    let end = position_of(bytes, 0x65, offset + 1);
    if end >= bytes.len() {
        return Err(TorrentError::UnterminatedInteger);
    }
    match parse_decimal(slice_subrange(bytes, offset + 1, end), u64::MAX) {
        None => Err(TorrentError::InvalidInteger),
        Some(value) => Ok((value, end + 1)),
    }
}

/// Whether a list or a dictionary begins at a position, which has to be walked
/// through to find its end.
spec fn begins_collection(bytes: Seq<u8>, at: int) -> bool {
    has_byte(bytes, at, 0x6c) || has_byte(bytes, at, 0x64)
}

/// Finds the position behind the string or integer that begins at a position.
fn skip_scalar(bytes: &[u8], offset: usize) -> (r: Result<usize, TorrentError>)
    requires
        !begins_collection(bytes@, offset as int),
    ensures
        position_in(r) == value_end(bytes@, offset as int),
        r matches Ok(end) ==> offset < end <= bytes@.len(),
{
    if offset >= bytes.len() {
        return Err(TorrentError::UnexpectedEnd);
    }
    let marker = bytes[offset];
    if 0x30 <= marker && marker <= 0x39 {
        match parse_bytes(bytes, offset) {
            Ok((_, end)) => Ok(end),
            Err(error) => Err(error),
        }
    } else if marker == 0x69 {
        let end = position_of(bytes, 0x65, offset + 1);
        if end >= bytes.len() {
            Err(TorrentError::UnterminatedInteger)
        } else {
            Ok(end + 1)
        }
    } else {
        Err(TorrentError::InvalidMarker(offset))
    }
}

/// Finds the position behind the value that begins at a position.
pub fn skip_value(bytes: &[u8], offset: usize) -> (r: Result<usize, TorrentError>)
    ensures
        position_in(r) == value_end(bytes@, offset as int),
        r matches Ok(end) ==> offset < end <= bytes@.len(),
{
    if byte_is(bytes, offset, 0x6c) {
        skip_collection(bytes, offset + 1, false)
    } else if byte_is(bytes, offset, 0x64) {
        skip_collection(bytes, offset + 1, true)
    } else {
        skip_scalar(bytes, offset)
    }
}

/// The position behind the outermost of several lists and dictionaries, one
/// within the other, where the next element of the innermost begins at `at`.
/// Of each is told whether it is a dictionary, the outermost first.
spec fn outermost_end(bytes: Seq<u8>, at: int, open: Seq<bool>) -> Result<int, TorrentError>
    decreases open.len(),
{
    if open.len() == 0 {
        Ok(at)
    } else {
        match collection_end(bytes, at, open.last()) {
            Ok(end) => outermost_end(bytes, end, open.drop_last()),
            Err(error) => Err(error),
        }
    }
}

/// Finds the position behind the list or dictionary whose next element
/// begins at a position.
pub fn skip_collection(bytes: &[u8], offset: usize, dictionary: bool) -> (r: Result<
    usize,
    TorrentError,
>)
    requires
        dictionary ==> offset <= bytes@.len(),
    ensures
        position_in(r) == collection_end(bytes@, offset as int, dictionary),
        r matches Ok(end) ==> offset < end <= bytes@.len(),
{
    if offset > bytes.len() {
        return Err(TorrentError::UnexpectedEnd);
    }
    let mut open: Vec<bool> = vec![dictionary];
    let mut cursor: usize = offset;
    proof {
        lemma_collection_end(bytes@, offset as int, dictionary);
        reveal_with_fuel(outermost_end, 2);
        assert(open@.drop_last() =~= Seq::empty());
    }
    while open.len() > 0
        invariant
            offset <= cursor <= bytes@.len(),
            open@.len() > 0 || offset < cursor,
            outermost_end(bytes@, cursor as int, open@) == collection_end(
                bytes@,
                offset as int,
                dictionary,
            ),
        decreases bytes@.len() - cursor,
    {
        let ghost before = open@;
        let last = open[open.len() - 1];
        if byte_is(bytes, cursor, 0x65) {
            open.pop();
            cursor += 1;
            assert(open@ =~= before.drop_last());
            continue;
        }
        let start: usize = if last {
            match parse_bytes(bytes, cursor) {
                Ok((_, end)) => end,
                Err(error) => {
                    return Err(error);
                },
            }
        } else {
            cursor
        };
        proof {
            lemma_value_end(bytes@, start as int);
        }
        if byte_is(bytes, start, 0x6c) || byte_is(bytes, start, 0x64) {
            let inner = byte_is(bytes, start, 0x64);
            open.push(inner);
            cursor = start + 1;
            proof {
                assert(open@.drop_last() =~= before);
                assert(value_end(bytes@, start as int) == collection_end(bytes@, start + 1, inner));
                if let Ok(next) = value_end(bytes@, start as int) {
                    assert(outermost_end(bytes@, start + 1, open@) == outermost_end(
                        bytes@,
                        next,
                        before,
                    ));
                }
            }
        } else {
            match skip_scalar(bytes, start) {
                Ok(next) => {
                    cursor = next;
                },
                Err(error) => {
                    return Err(error);
                },
            }
        }
    }
    Ok(cursor)
}

/// Reads the name that an `info` value gives.
pub fn find_name(info: &[u8]) -> (r: String)
    ensures
        r@ == name_of(info@),
{
    if !byte_is(info, 0, 0x64) {
        return String::new();
    }
    let mut cursor: usize = 1;
    while cursor < info.len() && info[cursor] != 0x65
        invariant
            1 <= cursor <= info@.len(),
            has_byte(info@, 0, 0x64),
            name_bytes(info@, cursor as int) == name_bytes(info@, 1),
        decreases info@.len() - cursor,
    {
        let key = match parse_bytes(info, cursor) {
            Ok(key) => key,
            Err(_) => {
                return String::new();
            },
        };
        let name: [u8; 4] = [0x6e, 0x61, 0x6d, 0x65];
        assert(name@ =~= key_name());
        if is_key(info, key, &name) {
            match parse_bytes(info, key.1) {
                Ok(value) => {
                    return text_from_utf8_lossy(slice_subrange(info, value.0, value.1));
                },
                Err(_) => {
                    return String::new();
                },
            }
        }
        match skip_value(info, key.1) {
            Ok(end) => {
                cursor = end;
            },
            Err(_) => {
                return String::new();
            },
        }
    }
    String::new()
}

/// Reads one file's dictionary from a position on: its last `length`, and
/// the position of the end mark.
fn read_file_length(bytes: &[u8], offset: usize) -> (r: Result<(Option<u64>, usize), TorrentError>)
    requires
        offset <= bytes@.len(),
    ensures
        match r {
            Ok((None, end)) => file_length(bytes@, offset as int, None) == Ok::<_, TorrentError>(
                (None::<nat>, end as int),
            ),
            Ok((Some(length), end)) => file_length(bytes@, offset as int, None) == Ok::<
                _,
                TorrentError,
            >((Some(length as nat), end as int)),
            Err(error) => file_length(bytes@, offset as int, None) == Err::<(Option<nat>, int), _>(
                error,
            ),
        },
        r matches Ok((_, end)) ==> offset <= end < bytes@.len() && end < usize::MAX,
{
    let mut cursor: usize = offset;
    let mut length: Option<u64> = None;
    while !byte_is(bytes, cursor, 0x65)
        invariant
            offset <= cursor <= bytes@.len(),
            file_length(
                bytes@,
                cursor as int,
                match length {
                    Some(value) => Some(value as nat),
                    None => None,
                },
            ) == file_length(bytes@, offset as int, None),
        decreases bytes@.len() - cursor,
    {
        let key = match parse_bytes(bytes, cursor) {
            Ok(key) => key,
            Err(error) => {
                return Err(error);
            },
        };
        let wanted: [u8; 6] = [0x6c, 0x65, 0x6e, 0x67, 0x74, 0x68];
        assert(wanted@ =~= key_length());
        if is_key(bytes, key, &wanted) {
            match parse_integer(bytes, key.1) {
                Ok((value, _)) => {
                    length = Some(value);
                },
                Err(error) => {
                    return Err(error);
                },
            }
        }
        match skip_value(bytes, key.1) {
            Ok(end) => {
                cursor = end;
            },
            Err(error) => {
                return Err(error);
            },
        }
    }
    Ok((length, cursor))
}

/// Sums the file lengths of the list of files that begins at a position.
pub fn sum_file_lengths(bytes: &[u8], offset: usize) -> (r: Result<u64, TorrentError>)
    ensures
        !has_byte(bytes@, offset as int, 0x6c) ==> r == Err::<u64, _>(TorrentError::FilesNotList),
        has_byte(bytes@, offset as int, 0x6c) ==> match r {
            Ok(total) => files_total(bytes@, offset + 1, 0) == Ok::<_, TorrentError>(total as nat),
            Err(error) => files_total(bytes@, offset + 1, 0) == Err::<nat, _>(error),
        },
{
    if !byte_is(bytes, offset, 0x6c) {
        return Err(TorrentError::FilesNotList);
    }
    let mut cursor: usize = offset + 1;
    let mut total: u64 = 0;
    while !byte_is(bytes, cursor, 0x65)
        invariant
            offset < cursor <= bytes@.len(),
            has_byte(bytes@, offset as int, 0x6c),
            files_total(bytes@, cursor as int, total as nat) == files_total(bytes@, offset + 1, 0),
        decreases bytes@.len() - cursor,
    {
        if !byte_is(bytes, cursor, 0x64) {
            return Err(TorrentError::EntryNotDictionary);
        }
        match read_file_length(bytes, cursor + 1) {
            Err(error) => {
                return Err(error);
            },
            Ok((None, _)) => {
                return Err(TorrentError::MissingLength);
            },
            Ok((Some(length), end)) => {
                match total.checked_add(length) {
                    None => {
                        return Err(TorrentError::TotalTooLarge);
                    },
                    Some(sum) => {
                        total = sum;
                    },
                }
                cursor = end + 1;
            },
        }
    }
    Ok(total)
}

/// Reads the size that an `info` value gives.
pub fn find_total_length(info: &[u8]) -> (r: Result<u64, TorrentError>)
    ensures
        match r {
            Ok(total) => info_length(info@) == Ok::<_, TorrentError>(total as nat),
            Err(error) => info_length(info@) == Err::<nat, _>(error),
        },
{
    if !byte_is(info, 0, 0x64) {
        return Err(TorrentError::InfoNotDictionary);
    }
    let mut cursor: usize = 1;
    let mut length: Option<u64> = None;
    while cursor < info.len() && info[cursor] != 0x65
        invariant
            1 <= cursor <= info@.len(),
            has_byte(info@, 0, 0x64),
            total_length(
                info@,
                cursor as int,
                match length {
                    Some(value) => Some(value as nat),
                    None => None,
                },
            ) == total_length(info@, 1, None),
        decreases info@.len() - cursor,
    {
        let key = match parse_bytes(info, cursor) {
            Ok(key) => key,
            Err(error) => {
                return Err(error);
            },
        };
        let wanted: [u8; 6] = [0x6c, 0x65, 0x6e, 0x67, 0x74, 0x68];
        assert(wanted@ =~= key_length());
        let files: [u8; 5] = [0x66, 0x69, 0x6c, 0x65, 0x73];
        assert(files@ =~= key_files());
        if is_key(info, key, &files) {
            return sum_file_lengths(info, key.1);
        }
        if is_key(info, key, &wanted) {
            match parse_integer(info, key.1) {
                Ok((value, _)) => {
                    length = Some(value);
                },
                Err(error) => {
                    return Err(error);
                },
            }
        }
        match skip_value(info, key.1) {
            Ok(end) => {
                cursor = end;
            },
            Err(error) => {
                return Err(error);
            },
        }
    }
    match length {
        Some(value) => Ok(value),
        None => Err(TorrentError::NoFileSizes),
    }
}

/// Reads the range of the `info` value of a root dictionary.
fn find_info(bytes: &[u8]) -> (r: Result<Option<(usize, usize)>, TorrentError>)
    requires
        has_byte(bytes@, 0, 0x64),
    ensures
        match r {
            Ok(None) => info_range(bytes@, 1, None) == Ok::<_, TorrentError>(None::<(int, int)>),
            Ok(Some((start, end))) => info_range(bytes@, 1, None) == Ok::<_, TorrentError>(
                Some((start as int, end as int)),
            ) && start <= end <= bytes@.len(),
            Err(error) => info_range(bytes@, 1, None) == Err::<Option<(int, int)>, _>(error),
        },
{
    let mut cursor: usize = 1;
    let mut found: Option<(usize, usize)> = None;
    while cursor < bytes.len() && bytes[cursor] != 0x65
        invariant
            1 <= cursor <= bytes@.len(),
            found matches Some((start, end)) ==> start <= end <= bytes@.len(),
            info_range(
                bytes@,
                cursor as int,
                match found {
                    Some((start, end)) => Some((start as int, end as int)),
                    None => None,
                },
            ) == info_range(bytes@, 1, None),
        decreases bytes@.len() - cursor,
    {
        let key = match parse_bytes(bytes, cursor) {
            Ok(key) => key,
            Err(error) => {
                return Err(error);
            },
        };
        let end = match skip_value(bytes, key.1) {
            Ok(end) => end,
            Err(error) => {
                return Err(error);
            },
        };
        let wanted: [u8; 4] = [0x69, 0x6e, 0x66, 0x6f];
        assert(wanted@ =~= key_info());
        if is_key(bytes, key, &wanted) {
            found = Some((key.1, end));
        }
        cursor = end;
    }
    Ok(found)
}

/// Whether a text has the form of an info hash: forty hexadecimal digits in
/// lower case.
pub open spec fn is_info_hash(text: Seq<char>) -> bool {
    text.len() == 40 && is_hex(text)
}

/// Reads what a torrent file says of its contents.
pub fn parse_metadata(bytes: &[u8]) -> (r: Result<TorrentMetadata, String>)
    ensures
        match r {
            Ok(metadata) => metadata_of(bytes@) == Ok::<_, TorrentError>(metadata@)
                && is_info_hash(metadata@.info_hash),
            Err(message) => metadata_of(bytes@) matches Err(error) && message@ == error.text(),
        },
{
    if !byte_is(bytes, 0, 0x64) {
        return Err(TorrentError::RootNotDictionary.message());
    }
    match find_info(bytes) {
        Err(error) => Err(error.message()),
        Ok(None) => Err(TorrentError::MissingInfo.message()),
        Ok(Some((start, end))) => {
            let info = slice_subrange(bytes, start, end);
            let name = find_name(info);
            match find_total_length(info) {
                Err(error) => Err(error.message()),
                Ok(total_bytes) => {
                    let digest = sha1_digest(info);
                    proof {
                        lemma_hex_text(digest@);
                    }
                    Ok(TorrentMetadata { info_hash: hex_encode(&digest), name, total_bytes })
                },
            }
        },
    }
}

} // verus!
