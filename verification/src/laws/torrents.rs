//! Which torrent files are refused, and for what.

use vstd::prelude::*;

use crate::bencode::{
    encode, encode_entries, encode_items, encode_text, files_add_up, last_value,
    lemma_entry_read_back, lemma_file_read_back, lemma_files_only_add, lemma_find_behind_digits,
    lemma_info_read_back, lemma_integer_read_back, lemma_lengths_of_rest, lemma_string_read_back,
    lemma_value_read_back, lemma_written_byte, lemma_written_split, lengths_are_numbers, written_at,
    Bencode,
};
use crate::number::{all_digits, digits_of, digits_value, is_digit, law_digits_read_back};
use crate::torrent::{
    file_length, files_total, find_byte, has_byte, integer_at, key_files, key_info, key_length,
    lemma_find_byte, metadata_of, string_at, total_length, value_end, MetadataView, TorrentError,
};

verus! {

/// A byte string is as long as the number before its colon says, if there is as
/// much; without a number or a colon it is none.
pub proof fn law_strings_are_as_long_as_they_say(
    before: Seq<u8>,
    digits: Seq<u8>,
    behind: Seq<u8>,
)
    requires
        all_digits(digits),
        (before + digits + seq![0x3au8] + behind).len() <= usize::MAX,
    ensures
        ({
            let bytes = before + digits + seq![0x3au8] + behind;
            let start = before.len() + digits.len() + 1;
            let read = string_at(bytes, before.len() as int);
            &&& digits.len() > 0 && digits_value(digits) <= behind.len() ==> read == Ok::<
                _,
                TorrentError,
            >((start as int, (start + digits_value(digits)) as int))
            &&& digits.len() > 0 && behind.len() < digits_value(digits) <= usize::MAX ==> read
                == Err::<(int, int), _>(TorrentError::StringTooLong)
            &&& digits.len() == 0 || digits_value(digits) > usize::MAX ==> read == Err::<
                (int, int),
                _,
            >(TorrentError::InvalidStringLength)
        }),
        find_byte(behind, 0x3a, 0) == behind.len() ==> string_at(behind, 0) == Err::<
            (int, int),
            _,
        >(TorrentError::InvalidStringLength),
{
    let bytes = before + digits + seq![0x3au8] + behind;
    let at = before.len() as int;
    assert(bytes.subrange(at, at + (digits + seq![0x3au8]).len()) =~= digits + seq![0x3au8]);
    lemma_find_behind_digits(bytes, at, digits, 0x3a);
    if digits.len() > 0 {
        assert(is_digit(digits[0]));
    }
}

/// A value begins with a digit or with one of three letters; anything else is
/// no value, and neither is nothing.
pub proof fn law_values_begin_with_a_mark(bytes: Seq<u8>, at: int)
    requires
        0 <= at,
    ensures
        at >= bytes.len() ==> value_end(bytes, at) == Err::<int, _>(TorrentError::UnexpectedEnd),
        at < bytes.len() && !is_digit(bytes[at]) && bytes[at] != 0x69 && bytes[at] != 0x6c
            && bytes[at] != 0x64 ==> value_end(bytes, at) == Err::<int, _>(
            TorrentError::InvalidMarker(at as usize),
        ),
        at < bytes.len() && bytes[at] == 0x69 && (forall|i: int|
            at < i < bytes.len() ==> #[trigger] bytes[i] != 0x65) ==> value_end(bytes, at) == Err::<
            int,
            _,
        >(TorrentError::UnterminatedInteger),
{
    if at < bytes.len() {
        lemma_find_byte(bytes, 0x65, at + 1);
    }
}

/// What is no dictionary is no torrent file.
pub proof fn law_torrent_is_a_dictionary(bytes: Seq<u8>)
    requires
        bytes.len() == 0 || bytes[0] != 0x64,
    ensures
        metadata_of(bytes) == Err::<MetadataView, _>(TorrentError::RootNotDictionary),
{
}

/// Whether a length is no number, or one above 64 bits.
pub open spec fn is_wrong_length(value: Bencode) -> bool {
    match value {
        Bencode::Number(length) => length > u64::MAX,
        _ => true,
    }
}

/// Whether a file is at fault behind others of a given size: it is no
/// dictionary, has no length, has a wrong one, or makes the sum too large.
pub open spec fn is_at_fault(file: Bencode, before: nat, fault: TorrentError) -> bool {
    match file {
        Bencode::Dictionary(entries) => if lengths_are_numbers(entries) {
            match last_value(entries, key_length(), None) {
                Some(Bencode::Number(length)) => before + length > u64::MAX && fault
                    == TorrentError::TotalTooLarge,
                _ => fault == TorrentError::MissingLength,
            }
        } else {
            fault == TorrentError::InvalidInteger
        },
        _ => fault == TorrentError::EntryNotDictionary,
    }
}

/// Whether an `info` dictionary gives no size, for a reason: its files are no
/// list, one of them is at fault, or there is neither a length nor files.
pub open spec fn gives_no_size(
    info: Seq<(Seq<u8>, Bencode)>,
    at: int,
    before: nat,
    fault: TorrentError,
) -> bool {
    ||| {
        &&& forall|i: int|
            0 <= i < info.len() ==> (#[trigger] info[i]).0 != key_files() && info[i].0
                != key_length()
        &&& fault == TorrentError::NoFileSizes
    }
    ||| exists|k: int|
        {
            &&& 0 <= k < info.len()
            &&& (#[trigger] info[k]).0 == key_files()
            &&& lengths_are_numbers(info)
            &&& forall|i: int| 0 <= i < k ==> (#[trigger] info[i]).0 != key_files()
            &&& match info[k].1 {
                Bencode::List(files) => {
                    &&& 0 <= at < files.len()
                    &&& files_add_up(files.take(at), 0, before)
                    &&& before <= u64::MAX
                    &&& is_at_fault(files[at], before, fault)
                },
                _ => fault == TorrentError::FilesNotList,
            }
        }
}

proof fn lemma_marks(bytes: Seq<u8>, at: int, value: Bencode)
    requires
        written_at(bytes, at, encode(value)),
    ensures
        has_byte(bytes, at, 0x64) <==> value is Dictionary,
        has_byte(bytes, at, 0x6c) <==> value is List,
        has_byte(bytes, at, 0x69) <==> value is Number,
{
    match value {
        Bencode::Text(text) => {
            lemma_string_read_back(bytes, at, text);
        },
        Bencode::Number(number) => {
            lemma_integer_read_back(bytes, at, number);
        },
        Bencode::List(items) => {
            lemma_written_split(bytes, at, seq![0x6cu8], encode_items(items) + seq![0x65u8]);
            lemma_written_byte(bytes, at, 0x6c);
        },
        Bencode::Dictionary(entries) => {
            lemma_written_split(bytes, at, seq![0x64u8], encode_entries(entries) + seq![0x65u8]);
            lemma_written_byte(bytes, at, 0x64);
        },
    }
}

proof fn lemma_wrong_length(bytes: Seq<u8>, at: int, value: Bencode)
    requires
        written_at(bytes, at, encode(value)),
        is_wrong_length(value),
    ensures
        integer_at(bytes, at) == Err::<(nat, int), _>(TorrentError::InvalidInteger),
{
    lemma_marks(bytes, at, value);
    if let Bencode::Number(number) = value {
        let digits = digits_of(number);
        law_digits_read_back(number, number);
        assert(seq![0x69u8] + digits + seq![0x65u8] =~= seq![0x69u8] + (digits + seq![0x65u8]));
        lemma_written_split(bytes, at, seq![0x69u8], digits + seq![0x65u8]);
        lemma_find_behind_digits(bytes, at + 1, digits, 0x65);
        assert(is_digit(digits[0]));
    }
}

proof fn lemma_file_refused(
    bytes: Seq<u8>,
    at: int,
    entries: Seq<(Seq<u8>, Bencode)>,
    found: Option<nat>,
)
    requires
        written_at(bytes, at, encode_entries(entries) + seq![0x65u8]),
        !lengths_are_numbers(entries),
    ensures
        file_length(bytes, at, found) == Err::<(Option<nat>, int), _>(TorrentError::InvalidInteger),
    decreases entries.len(),
{
    let key = encode_text(entries[0].0);
    let value = entries[0].1;
    lemma_entry_read_back(bytes, at, entries);
    lemma_value_read_back(bytes, at + key.len(), value);
    let next = at + key.len() + encode(value).len();
    let rest = entries.drop_first();
    if entries[0].0 == key_length() && is_wrong_length(value) {
        lemma_wrong_length(bytes, at + key.len(), value);
    } else {
        let k = choose|k: int|
            0 <= k < entries.len() && (#[trigger] entries[k]).0 == key_length() && !(
            entries[k].1 matches Bencode::Number(length) && length <= u64::MAX);
        assert(rest[k - 1] == entries[k]);
        if entries[0].0 == key_length() {
            lemma_integer_read_back(bytes, at + key.len(), value->Number_0);
            lemma_file_refused(bytes, next, rest, Some(value->Number_0));
        } else {
            lemma_file_refused(bytes, next, rest, found);
        }
    }
}

proof fn lemma_files_refused(
    bytes: Seq<u8>,
    at: int,
    files: Seq<Bencode>,
    count: int,
    start: nat,
    before: nat,
    fault: TorrentError,
)
    requires
        written_at(bytes, at, encode_items(files) + seq![0x65u8]),
        0 <= count < files.len(),
        files_add_up(files.take(count), start, before),
        before <= u64::MAX,
        is_at_fault(files[count], before, fault),
    ensures
        files_total(bytes, at, start) == Err::<nat, _>(fault),
    decreases files.len(),
{
    let first = encode(files[0]);
    let rest = encode_items(files.drop_first());
    assert(encode_items(files) + seq![0x65u8] =~= first + (rest + seq![0x65u8]));
    lemma_written_split(bytes, at, first, rest + seq![0x65u8]);
    lemma_value_read_back(bytes, at, files[0]);
    lemma_marks(bytes, at, files[0]);
    if let Bencode::Dictionary(file) = files[0] {
        lemma_written_split(bytes, at, seq![0x64u8], encode_entries(file) + seq![0x65u8]);
        if lengths_are_numbers(file) {
            lemma_file_read_back(bytes, at + 1, file, None);
        } else {
            lemma_file_refused(bytes, at + 1, file, None);
        }
        if count > 0 {
            let length = last_value(file, key_length(), None)->0->Number_0;
            let shorter = files.take(count);
            assert(shorter.drop_first() =~= files.drop_first().take(count - 1));
            lemma_files_only_add(shorter.drop_first(), start + length, before);
            lemma_files_refused(
                bytes,
                at + first.len(),
                files.drop_first(),
                count - 1,
                start + length,
                before,
                fault,
            );
        }
    }
}

proof fn lemma_total_refused(
    bytes: Seq<u8>,
    at: int,
    info: Seq<(Seq<u8>, Bencode)>,
    found: Option<nat>,
    count: int,
    before: nat,
    fault: TorrentError,
)
    requires
        written_at(bytes, at, encode_entries(info) + seq![0x65u8]),
        gives_no_size(info, count, before, fault),
        fault == TorrentError::NoFileSizes ==> found is None,
    ensures
        total_length(bytes, at, found) == Err::<nat, _>(fault),
    decreases info.len(),
{
    lemma_written_split(bytes, at, encode_entries(info), seq![0x65u8]);
    lemma_written_byte(bytes, at + encode_entries(info).len(), 0x65);
    if info.len() > 0 {
        let key = encode_text(info[0].0);
        let value = info[0].1;
        let start = at + key.len();
        let next = start + encode(value).len();
        let rest = info.drop_first();
        lemma_entry_read_back(bytes, at, info);
        lemma_value_read_back(bytes, start, value);
        lemma_marks(bytes, start, value);
        if info[0].0 == key_files() {
            if let Bencode::List(files) = value {
                lemma_written_split(bytes, start, seq![0x6cu8], encode_items(files) + seq![0x65u8]);
                lemma_files_refused(bytes, start + 1, files, count, 0, before, fault);
            }
        } else {
            if fault == TorrentError::NoFileSizes && forall|i: int|
                0 <= i < info.len() ==> (#[trigger] info[i]).0 != key_files() && info[i].0
                    != key_length() {
                assert forall|i: int| 0 <= i < rest.len() implies (#[trigger] rest[i]).0
                    != key_files() && rest[i].0 != key_length() by {
                    assert(rest[i] == info[i + 1]);
                }
                lemma_total_refused(bytes, next, rest, found, count, before, fault);
            } else {
                lemma_lengths_of_rest(info);
                let k = choose|k: int|
                    {
                        &&& 0 <= k < info.len()
                        &&& (#[trigger] info[k]).0 == key_files()
                        &&& lengths_are_numbers(info)
                        &&& forall|i: int| 0 <= i < k ==> (#[trigger] info[i]).0 != key_files()
                        &&& match info[k].1 {
                            Bencode::List(files) => {
                                &&& 0 <= count < files.len()
                                &&& files_add_up(files.take(count), 0, before)
                                &&& before <= u64::MAX
                                &&& is_at_fault(files[count], before, fault)
                            },
                            _ => fault == TorrentError::FilesNotList,
                        }
                    };
                assert(rest[k - 1] == info[k]);
                assert forall|i: int| 0 <= i < k - 1 implies (#[trigger] rest[i]).0
                    != key_files() by {
                    assert(rest[i] == info[i + 1]);
                }
                if info[0].0 == key_length() {
                    lemma_integer_read_back(bytes, start, value->Number_0);
                    lemma_total_refused(
                        bytes,
                        next,
                        rest,
                        Some(value->Number_0),
                        count,
                        before,
                        fault,
                    );
                } else {
                    lemma_total_refused(bytes, next, rest, found, count, before, fault);
                }
            }
        }
    }
}

/// A torrent file the `info` of which is no dictionary, or gives no size, is
/// refused for that reason.
pub proof fn law_torrent_without_a_size_is_refused(
    root: Seq<(Seq<u8>, Bencode)>,
    info: Bencode,
    count: int,
    before: nat,
    fault: TorrentError,
)
    requires
        encode(Bencode::Dictionary(root)).len() <= usize::MAX,
        last_value(root, key_info(), None) == Some(info),
    ensures
        !(info is Dictionary) ==> metadata_of(encode(Bencode::Dictionary(root))) == Err::<
            MetadataView,
            _,
        >(TorrentError::InfoNotDictionary),
        info matches Bencode::Dictionary(entries) && gives_no_size(entries, count, before, fault)
            ==> metadata_of(encode(Bencode::Dictionary(root))) == Err::<MetadataView, _>(fault),
{
    let bytes = encode(Bencode::Dictionary(root));
    assert(bytes.subrange(0, 0 + bytes.len() as int) =~= bytes);
    lemma_written_split(bytes, 0, seq![0x64u8], encode_entries(root) + seq![0x65u8]);
    lemma_written_byte(bytes, 0, 0x64);
    lemma_info_read_back(bytes, 1, root, None, None);
    let slice = encode(info);
    assert(slice.subrange(0, 0 + slice.len() as int) =~= slice);
    lemma_marks(slice, 0, info);
    if let Bencode::Dictionary(entries) = info {
        lemma_written_split(slice, 0, seq![0x64u8], encode_entries(entries) + seq![0x65u8]);
        if gives_no_size(entries, count, before, fault) {
            lemma_total_refused(slice, 1, entries, None, count, before, fault);
        }
    }
}

} // verus!
