//! Writing torrent files, as a model: what `torrent` reads back of every
//! dictionary that is written in the bencode format.

use vstd::prelude::*;

use crate::number::{all_digits, digits_of, is_digit, law_digits_read_back};
use crate::outside::{hex_text, lossy_text_of, sha1_of};
use crate::torrent::{
    collection_end, file_length, files_total, find_byte, has_byte, info_range, integer_at,
    key_files, key_info, key_length, key_name, metadata_of, name_bytes, string_at, total_length,
    value_end, MetadataView, TorrentError,
};

verus! {

/// A value of the bencode format.
pub enum Bencode {
    Text(Seq<u8>),
    Number(nat),
    List(Seq<Bencode>),
    Dictionary(Seq<(Seq<u8>, Bencode)>),
}

/// A byte string as it is written.
pub open spec fn encode_text(text: Seq<u8>) -> Seq<u8> {
    digits_of(text.len()) + seq![0x3au8] + text
}

/// A value as it is written.
pub open spec fn encode(value: Bencode) -> Seq<u8>
    decreases value,
{
    match value {
        Bencode::Text(text) => encode_text(text),
        Bencode::Number(number) => seq![0x69u8] + digits_of(number) + seq![0x65u8],
        Bencode::List(items) => seq![0x6cu8] + (encode_items(items) + seq![0x65u8]),
        Bencode::Dictionary(entries) => seq![0x64u8] + (encode_entries(entries) + seq![0x65u8]),
    }
}

/// The elements of a list, one after the other.
pub open spec fn encode_items(items: Seq<Bencode>) -> Seq<u8>
    decreases items,
{
    if items.len() == 0 {
        Seq::empty()
    } else {
        encode(items[0]) + encode_items(items.drop_first())
    }
}

/// The entries of a dictionary, each key before its value.
pub open spec fn encode_entries(entries: Seq<(Seq<u8>, Bencode)>) -> Seq<u8>
    decreases entries,
{
    if entries.len() == 0 {
        Seq::empty()
    } else {
        (encode_text(entries[0].0) + encode(entries[0].1)) + encode_entries(entries.drop_first())
    }
}

/// The value of the last entry with a key, or else `found`.
pub open spec fn last_value(
    entries: Seq<(Seq<u8>, Bencode)>,
    key: Seq<u8>,
    found: Option<Bencode>,
) -> Option<Bencode>
    decreases entries.len(),
{
    if entries.len() == 0 {
        found
    } else {
        last_value(
            entries.drop_first(),
            key,
            if entries[0].0 == key {
                Some(entries[0].1)
            } else {
                found
            },
        )
    }
}

/// The value of the first entry with a key.
pub open spec fn first_value(entries: Seq<(Seq<u8>, Bencode)>, key: Seq<u8>) -> Option<Bencode>
    decreases entries.len(),
{
    if entries.len() == 0 {
        None
    } else if entries[0].0 == key {
        Some(entries[0].1)
    } else {
        first_value(entries.drop_first(), key)
    }
}

/// Whether every `length` of a dictionary is a number that fits 64 bits.
pub open spec fn lengths_are_numbers(entries: Seq<(Seq<u8>, Bencode)>) -> bool {
    forall|i: int|
        0 <= i < entries.len() && (#[trigger] entries[i]).0 == key_length() ==> (
        entries[i].1 matches Bencode::Number(length) && length <= u64::MAX)
}

/// Whether a list holds a dictionary for each file, with its length, and the
/// lengths add up to `total` on top of `before`.
pub open spec fn files_add_up(files: Seq<Bencode>, before: nat, total: nat) -> bool
    decreases files.len(),
{
    if files.len() == 0 {
        before == total
    } else {
        &&& files[0] matches Bencode::Dictionary(file)
        &&& lengths_are_numbers(file)
        &&& last_value(file, key_length(), None) matches Some(Bencode::Number(length))
        &&& files_add_up(files.drop_first(), before + length, total)
    }
}

/// Whether an `info` dictionary describes `total` bytes: by its files where
/// it lists them, by its length where it does not.
pub open spec fn describes(info: Seq<(Seq<u8>, Bencode)>, total: nat) -> bool {
    &&& total <= u64::MAX
    &&& lengths_are_numbers(info)
    &&& match first_value(info, key_files()) {
        Some(files) => files matches Bencode::List(files) && files_add_up(files, 0, total),
        None => last_value(info, key_length(), None) == Some(Bencode::Number(total)),
    }
}

/// The name that an `info` dictionary gives, if it gives one as a byte string.
pub open spec fn named(info: Seq<(Seq<u8>, Bencode)>, name: Seq<char>) -> bool {
    match first_value(info, key_name()) {
        Some(value) => value matches Bencode::Text(text) && name == lossy_text_of(text),
        None => name == Seq::<char>::empty(),
    }
}

/// Whether `part` stands in `bytes` at position `at`.
pub open spec fn written_at(bytes: Seq<u8>, at: int, part: Seq<u8>) -> bool {
    &&& 0 <= at
    &&& at + part.len() <= bytes.len() <= usize::MAX
    &&& bytes.subrange(at, at + part.len()) == part
}

pub proof fn lemma_written_split(bytes: Seq<u8>, at: int, left: Seq<u8>, right: Seq<u8>)
    requires
        written_at(bytes, at, left + right),
    ensures
        written_at(bytes, at, left),
        written_at(bytes, at + left.len(), right),
{
    let whole = bytes.subrange(at, at + (left + right).len());
    assert(bytes.subrange(at, at + left.len()) =~= left) by {
        assert forall|i: int| 0 <= i < left.len() implies bytes[at + i] == left[i] by {
            assert(whole[i] == (left + right)[i]);
        }
    }
    let middle = at + left.len();
    assert(bytes.subrange(middle, middle + right.len()) =~= right) by {
        assert forall|i: int| 0 <= i < right.len() implies bytes[middle + i] == right[i] by {
            assert(whole[left.len() + i] == (left + right)[left.len() + i]);
        }
    }
}

pub proof fn lemma_written_byte(bytes: Seq<u8>, at: int, byte: u8)
    requires
        written_at(bytes, at, seq![byte]),
    ensures
        has_byte(bytes, at, byte),
{
    assert(bytes.subrange(at, at + 1)[0] == seq![byte][0]);
}

/// Behind a run of digits, the byte that follows it is found.
pub proof fn lemma_find_behind_digits(bytes: Seq<u8>, at: int, digits: Seq<u8>, byte: u8)
    requires
        written_at(bytes, at, digits + seq![byte]),
        all_digits(digits),
        !is_digit(byte),
    ensures
        find_byte(bytes, byte, at) == at + digits.len(),
        bytes.subrange(at, at + digits.len()) == digits,
    decreases digits.len(),
{
    lemma_written_split(bytes, at, digits, seq![byte]);
    lemma_written_byte(bytes, at + digits.len(), byte);
    if digits.len() > 0 {
        assert(bytes[at] == bytes.subrange(at, at + digits.len())[0]);
        assert(is_digit(digits[0]));
        let rest = digits.drop_first();
        assert(digits + seq![byte] =~= seq![digits[0]] + (rest + seq![byte]));
        lemma_written_split(bytes, at, seq![digits[0]], rest + seq![byte]);
        assert forall|i: int| 0 <= i < rest.len() implies is_digit(#[trigger] rest[i]) by {
            assert(rest[i] == digits[i + 1]);
        }
        lemma_find_behind_digits(bytes, at + 1, rest, byte);
    }
}

/// A byte string that is written is read back.
pub proof fn lemma_string_read_back(bytes: Seq<u8>, at: int, text: Seq<u8>)
    requires
        written_at(bytes, at, encode_text(text)),
    ensures
        string_at(bytes, at) matches Ok((start, end)) && end == at + encode_text(text).len()
            && bytes.subrange(start, end) == text,
        0x30 <= bytes[at] <= 0x39,
{
    let digits = digits_of(text.len());
    law_digits_read_back(text.len(), usize::MAX as nat);
    lemma_written_split(bytes, at, digits + seq![0x3au8], text);
    lemma_find_behind_digits(bytes, at, digits, 0x3a);
    assert(bytes.subrange(at, at + digits.len())[0] == bytes[at]);
    assert(is_digit(digits[0]));
}

/// A number that is written is read back.
pub proof fn lemma_integer_read_back(bytes: Seq<u8>, at: int, number: nat)
    requires
        written_at(bytes, at, encode(Bencode::Number(number))),
    ensures
        number <= u64::MAX ==> integer_at(bytes, at) == Ok::<_, TorrentError>(
            (number, at + encode(Bencode::Number(number)).len()),
        ),
        has_byte(bytes, at, 0x69),
        find_byte(bytes, 0x65, at + 1) + 1 == at + encode(Bencode::Number(number)).len(),
{
    let digits = digits_of(number);
    law_digits_read_back(number, number);
    if number <= u64::MAX {
        law_digits_read_back(number, u64::MAX as nat);
    }
    assert(seq![0x69u8] + digits + seq![0x65u8] =~= seq![0x69u8] + (digits + seq![0x65u8]));
    lemma_written_split(bytes, at, seq![0x69u8], digits + seq![0x65u8]);
    lemma_written_byte(bytes, at, 0x69);
    lemma_find_behind_digits(bytes, at + 1, digits, 0x65);
}

/// Every value that is written ends where the reader says that it ends.
pub proof fn lemma_value_read_back(bytes: Seq<u8>, at: int, value: Bencode)
    requires
        written_at(bytes, at, encode(value)),
    ensures
        value_end(bytes, at) == Ok::<_, TorrentError>(at + encode(value).len()),
        encode(value).len() > 0,
        !has_byte(bytes, at, 0x65),
    decreases value,
{
    match value {
        Bencode::Text(text) => {
            lemma_string_read_back(bytes, at, text);
        },
        Bencode::Number(number) => {
            lemma_integer_read_back(bytes, at, number);
        },
        Bencode::List(items) => {
            lemma_written_split(bytes, at, seq![0x6cu8], encode_items(items) + seq![0x65u8]);
            lemma_written_byte(bytes, at, 0x6c);
            lemma_items_read_back(bytes, at + 1, items);
        },
        Bencode::Dictionary(entries) => {
            lemma_written_split(bytes, at, seq![0x64u8], encode_entries(entries) + seq![0x65u8]);
            lemma_written_byte(bytes, at, 0x64);
            lemma_entries_read_back(bytes, at + 1, entries);
        },
    }
}

proof fn lemma_items_read_back(bytes: Seq<u8>, at: int, items: Seq<Bencode>)
    requires
        written_at(bytes, at, encode_items(items) + seq![0x65u8]),
    ensures
        collection_end(bytes, at, false) == Ok::<_, TorrentError>(
            at + encode_items(items).len() + 1,
        ),
    decreases items,
{
    lemma_written_split(bytes, at, encode_items(items), seq![0x65u8]);
    lemma_written_byte(bytes, at + encode_items(items).len(), 0x65);
    if items.len() > 0 {
        let first = encode(items[0]);
        let rest = encode_items(items.drop_first());
        assert(encode_items(items) + seq![0x65u8] =~= first + (rest + seq![0x65u8]));
        lemma_written_split(bytes, at, first, rest + seq![0x65u8]);
        lemma_value_read_back(bytes, at, items[0]);
        lemma_items_read_back(bytes, at + first.len(), items.drop_first());
    }
}

/// The first entry of a dictionary, as it is read back.
pub proof fn lemma_entry_read_back(bytes: Seq<u8>, at: int, entries: Seq<(Seq<u8>, Bencode)>)
    requires
        entries.len() > 0,
        written_at(bytes, at, encode_entries(entries) + seq![0x65u8]),
    ensures
        ({
            let key = encode_text(entries[0].0);
            let value = encode(entries[0].1);
            &&& string_at(bytes, at) matches Ok((start, end)) && end == at + key.len()
                && bytes.subrange(start, end) == entries[0].0
            &&& written_at(bytes, at + key.len(), value)
            &&& written_at(
                bytes,
                at + key.len() + value.len(),
                encode_entries(entries.drop_first()) + seq![0x65u8],
            )
            &&& !has_byte(bytes, at, 0x65)
            &&& at < bytes.len()
            &&& encode_entries(entries).len() == key.len() + value.len() + encode_entries(
                entries.drop_first(),
            ).len()
        }),
{
    let key = encode_text(entries[0].0);
    let value = encode(entries[0].1);
    let rest = encode_entries(entries.drop_first());
    assert(encode_entries(entries) + seq![0x65u8] =~= key + (value + (rest + seq![0x65u8])));
    lemma_written_split(bytes, at, key, value + (rest + seq![0x65u8]));
    lemma_written_split(bytes, at + key.len(), value, rest + seq![0x65u8]);
    lemma_string_read_back(bytes, at, entries[0].0);
}

proof fn lemma_entries_read_back(bytes: Seq<u8>, at: int, entries: Seq<(Seq<u8>, Bencode)>)
    requires
        written_at(bytes, at, encode_entries(entries) + seq![0x65u8]),
    ensures
        collection_end(bytes, at, true) == Ok::<_, TorrentError>(
            at + encode_entries(entries).len() + 1,
        ),
    decreases entries,
{
    lemma_written_split(bytes, at, encode_entries(entries), seq![0x65u8]);
    lemma_written_byte(bytes, at + encode_entries(entries).len(), 0x65);
    if entries.len() > 0 {
        let key = encode_text(entries[0].0);
        lemma_entry_read_back(bytes, at, entries);
        lemma_value_read_back(bytes, at + key.len(), entries[0].1);
        lemma_entries_read_back(
            bytes,
            at + key.len() + encode(entries[0].1).len(),
            entries.drop_first(),
        );
    }
}

/// Every bencoded value ends where the reader says that it ends, whatever
/// stands before and behind it.
pub proof fn law_written_value_is_skipped(before: Seq<u8>, value: Bencode, behind: Seq<u8>)
    requires
        (before + encode(value) + behind).len() <= usize::MAX,
    ensures
        value_end(before + encode(value) + behind, before.len() as int) == Ok::<_, TorrentError>(
            (before.len() + encode(value).len()) as int,
        ),
{
    let bytes = before + encode(value) + behind;
    let at = before.len() as int;
    assert(bytes.subrange(at, at + encode(value).len()) =~= encode(value));
    lemma_value_read_back(bytes, at, value);
}

/// The `info` value of a root dictionary, as it is read back.
pub proof fn lemma_info_read_back(
    bytes: Seq<u8>,
    at: int,
    entries: Seq<(Seq<u8>, Bencode)>,
    range: Option<(int, int)>,
    found: Option<Bencode>,
)
    requires
        written_at(bytes, at, encode_entries(entries) + seq![0x65u8]),
        match (range, found) {
            (Some((start, end)), Some(value)) => written_at(bytes, start, encode(value)) && end
                == start + encode(value).len(),
            (None, None) => true,
            _ => false,
        },
    ensures
        match last_value(entries, key_info(), found) {
            Some(value) => info_range(bytes, at, range) matches Ok(Some((start, end)))
                && written_at(bytes, start, encode(value)) && end == start + encode(value).len(),
            None => info_range(bytes, at, range) == Ok::<_, TorrentError>(None::<(int, int)>),
        },
    decreases entries.len(),
{
    lemma_written_split(bytes, at, encode_entries(entries), seq![0x65u8]);
    lemma_written_byte(bytes, at + encode_entries(entries).len(), 0x65);
    if entries.len() > 0 {
        let key = encode_text(entries[0].0);
        let value = entries[0].1;
        lemma_entry_read_back(bytes, at, entries);
        lemma_value_read_back(bytes, at + key.len(), value);
        let start = at + key.len();
        let end = start + encode(value).len();
        if entries[0].0 == key_info() {
            lemma_info_read_back(bytes, end, entries.drop_first(), Some((start, end)), Some(value));
        } else {
            lemma_info_read_back(bytes, end, entries.drop_first(), range, found);
        }
    }
}

/// The name of an `info` dictionary, as it is read back.
proof fn lemma_name_read_back(
    bytes: Seq<u8>,
    at: int,
    entries: Seq<(Seq<u8>, Bencode)>,
)
    requires
        written_at(bytes, at, encode_entries(entries) + seq![0x65u8]),
        first_value(entries, key_name()) matches Some(value) ==> value is Text,
    ensures
        name_bytes(bytes, at) == match first_value(entries, key_name()) {
            Some(Bencode::Text(text)) => Some(text),
            _ => None,
        },
    decreases entries.len(),
{
    lemma_written_split(bytes, at, encode_entries(entries), seq![0x65u8]);
    lemma_written_byte(bytes, at + encode_entries(entries).len(), 0x65);
    if entries.len() > 0 {
        let key = encode_text(entries[0].0);
        let value = entries[0].1;
        lemma_entry_read_back(bytes, at, entries);
        if entries[0].0 == key_name() {
            lemma_string_read_back(bytes, at + key.len(), value->Text_0);
        } else {
            lemma_value_read_back(bytes, at + key.len(), value);
            lemma_name_read_back(
                bytes,
                at + key.len() + encode(value).len(),
                entries.drop_first(),
            );
        }
    }
}

/// Numbers found so far, as `last_value` keeps them.
pub open spec fn as_number(found: Option<nat>) -> Option<Bencode> {
    match found {
        Some(number) => Some(Bencode::Number(number)),
        None => None,
    }
}

pub proof fn lemma_lengths_of_rest(entries: Seq<(Seq<u8>, Bencode)>)
    requires
        lengths_are_numbers(entries),
        entries.len() > 0,
    ensures
        lengths_are_numbers(entries.drop_first()),
        entries[0].0 == key_length() ==> (entries[0].1 matches Bencode::Number(length) && length
            <= u64::MAX),
{
    let rest = entries.drop_first();
    assert forall|i: int|
        0 <= i < rest.len() && (#[trigger] rest[i]).0 == key_length() implies (
    rest[i].1 matches Bencode::Number(length) && length <= u64::MAX) by {
        assert(rest[i] == entries[i + 1]);
    }
}

/// The length of one file, as it is read back.
pub proof fn lemma_file_read_back(
    bytes: Seq<u8>,
    at: int,
    entries: Seq<(Seq<u8>, Bencode)>,
    found: Option<nat>,
)
    requires
        written_at(bytes, at, encode_entries(entries) + seq![0x65u8]),
        lengths_are_numbers(entries),
    ensures
        file_length(bytes, at, found) matches Ok((length, end)) && as_number(length) == last_value(
            entries,
            key_length(),
            as_number(found),
        ) && end == at + encode_entries(entries).len(),
    decreases entries.len(),
{
    lemma_written_split(bytes, at, encode_entries(entries), seq![0x65u8]);
    lemma_written_byte(bytes, at + encode_entries(entries).len(), 0x65);
    if entries.len() > 0 {
        let key = encode_text(entries[0].0);
        let value = entries[0].1;
        lemma_entry_read_back(bytes, at, entries);
        lemma_lengths_of_rest(entries);
        lemma_value_read_back(bytes, at + key.len(), value);
        let next = at + key.len() + encode(value).len();
        if entries[0].0 == key_length() {
            lemma_integer_read_back(bytes, at + key.len(), value->Number_0);
            lemma_file_read_back(bytes, next, entries.drop_first(), Some(value->Number_0));
        } else {
            lemma_file_read_back(bytes, next, entries.drop_first(), found);
        }
    }
}

/// Adding up only makes the sum larger.
pub proof fn lemma_files_only_add(files: Seq<Bencode>, before: nat, total: nat)
    requires
        files_add_up(files, before, total),
    ensures
        before <= total,
    decreases files.len(),
{
    if files.len() > 0 {
        let file = files[0]->Dictionary_0;
        let length = last_value(file, key_length(), None)->0->Number_0;
        lemma_files_only_add(files.drop_first(), before + length, total);
    }
}

/// The sum of the file lengths, as it is read back.
proof fn lemma_files_read_back(
    bytes: Seq<u8>,
    at: int,
    files: Seq<Bencode>,
    before: nat,
    total: nat,
)
    requires
        written_at(bytes, at, encode_items(files) + seq![0x65u8]),
        files_add_up(files, before, total),
        total <= u64::MAX,
    ensures
        files_total(bytes, at, before) == Ok::<_, TorrentError>(total),
    decreases files.len(),
{
    lemma_written_split(bytes, at, encode_items(files), seq![0x65u8]);
    lemma_written_byte(bytes, at + encode_items(files).len(), 0x65);
    if files.len() > 0 {
        let file = files[0]->Dictionary_0;
        let length = last_value(file, key_length(), None)->0->Number_0;
        let first = encode(files[0]);
        let rest = encode_items(files.drop_first());
        assert(encode_items(files) + seq![0x65u8] =~= first + (rest + seq![0x65u8]));
        lemma_written_split(bytes, at, first, rest + seq![0x65u8]);
        lemma_written_split(bytes, at, seq![0x64u8], encode_entries(file) + seq![0x65u8]);
        lemma_written_byte(bytes, at, 0x64);
        lemma_file_read_back(bytes, at + 1, file, None);
        lemma_files_only_add(files.drop_first(), before + length, total);
        lemma_files_read_back(
            bytes,
            at + first.len(),
            files.drop_first(),
            before + length,
            total,
        );
    }
}

/// The size of an `info` dictionary, as it is read back.
proof fn lemma_total_read_back(
    bytes: Seq<u8>,
    at: int,
    entries: Seq<(Seq<u8>, Bencode)>,
    found: Option<nat>,
    total: nat,
)
    requires
        written_at(bytes, at, encode_entries(entries) + seq![0x65u8]),
        total <= u64::MAX,
        lengths_are_numbers(entries),
        match first_value(entries, key_files()) {
            Some(files) => files matches Bencode::List(files) && files_add_up(files, 0, total),
            None => last_value(entries, key_length(), as_number(found)) == Some(
                Bencode::Number(total),
            ),
        },
    ensures
        total_length(bytes, at, found) == Ok::<_, TorrentError>(total),
    decreases entries.len(),
{
    lemma_written_split(bytes, at, encode_entries(entries), seq![0x65u8]);
    lemma_written_byte(bytes, at + encode_entries(entries).len(), 0x65);
    if entries.len() > 0 {
        let key = encode_text(entries[0].0);
        let value = entries[0].1;
        lemma_entry_read_back(bytes, at, entries);
        lemma_lengths_of_rest(entries);
        lemma_value_read_back(bytes, at + key.len(), value);
        let start = at + key.len();
        let next = start + encode(value).len();
        if entries[0].0 == key_files() {
            let files = value->List_0;
            lemma_written_split(bytes, start, seq![0x6cu8], encode_items(files) + seq![0x65u8]);
            lemma_written_byte(bytes, start, 0x6c);
            lemma_files_read_back(bytes, start + 1, files, 0, total);
        } else if entries[0].0 == key_length() {
            lemma_integer_read_back(bytes, start, value->Number_0);
            lemma_total_read_back(bytes, next, entries.drop_first(), Some(value->Number_0), total);
        } else {
            lemma_total_read_back(bytes, next, entries.drop_first(), found, total);
        }
    }
}

/// What is read of a torrent file is what was written into it: the digest is
/// that of the `info` dictionary as it stands in the file, the name is the
/// one that it gives, and the size is its length or the sum of its files.
pub proof fn law_written_torrent_is_read_back(
    root: Seq<(Seq<u8>, Bencode)>,
    info: Seq<(Seq<u8>, Bencode)>,
    name: Seq<char>,
    total: nat,
)
    requires
        encode(Bencode::Dictionary(root)).len() <= usize::MAX,
        last_value(root, key_info(), None) == Some(Bencode::Dictionary(info)),
        named(info, name),
        describes(info, total),
    ensures
        metadata_of(encode(Bencode::Dictionary(root))) == Ok::<_, TorrentError>(
            MetadataView {
                info_hash: hex_text(sha1_of(encode(Bencode::Dictionary(info)))),
                name,
                total_bytes: total,
            },
        ),
{
    let bytes = encode(Bencode::Dictionary(root));
    assert(bytes.subrange(0, 0 + bytes.len() as int) =~= bytes);
    lemma_written_split(bytes, 0, seq![0x64u8], encode_entries(root) + seq![0x65u8]);
    lemma_written_byte(bytes, 0, 0x64);
    lemma_info_read_back(bytes, 1, root, None, None);
    let slice = encode(Bencode::Dictionary(info));
    assert(slice.subrange(0, 0 + slice.len() as int) =~= slice);
    lemma_written_split(slice, 0, seq![0x64u8], encode_entries(info) + seq![0x65u8]);
    lemma_written_byte(slice, 0, 0x64);
    lemma_name_read_back(slice, 1, info);
    lemma_total_read_back(slice, 1, info, None, total);
}

/// A root dictionary without an `info` entry is refused as such.
pub proof fn law_torrent_without_info_is_refused(root: Seq<(Seq<u8>, Bencode)>)
    requires
        encode(Bencode::Dictionary(root)).len() <= usize::MAX,
        last_value(root, key_info(), None) is None,
    ensures
        metadata_of(encode(Bencode::Dictionary(root))) == Err::<MetadataView, _>(
            TorrentError::MissingInfo,
        ),
{
    let bytes = encode(Bencode::Dictionary(root));
    assert(bytes.subrange(0, 0 + bytes.len() as int) =~= bytes);
    lemma_written_split(bytes, 0, seq![0x64u8], encode_entries(root) + seq![0x65u8]);
    lemma_written_byte(bytes, 0, 0x64);
    lemma_info_read_back(bytes, 1, root, None, None);
}

} // verus!
