//! Identifiers, file names, the hiding of secrets, and the clock.

use vstd::prelude::*;
use vstd::string::*;

use crate::clock::Moment;
use crate::number::{decimal, decimal_text};
use crate::outside::{
    hex_encode, hex_text, is_control_code, is_space, replace_matches, replaced_of,
    rfc3339_text_of, secret_pattern, sha256_digest, sha256_of, LAST_MILLIS,
};
use crate::text::{
    chars_of, joined, lemma_trim_fixed, lemma_trimmed_edges, optional, text_between, trim,
    trim_leading, trimmed, without_leading,
};

verus! {

/// The time of the clock, in the format of RFC 3339.
pub fn now_iso() -> (r: String)
    ensures
        exists|millis: int| 0 <= millis <= LAST_MILLIS && r@ == #[trigger] rfc3339_text_of(millis),
{
    let now = Moment::now();
    now.text()
}

/// The identifier of an item: the first sixteen hexadecimal digits of the
/// SHA-256 digest of its key.
pub open spec fn item_id_of(key: Seq<char>) -> Seq<char> {
    hex_text(sha256_of(vstd::utf8::encode_utf8(key))).take(16)
}

/// Makes the identifier of an item from its key.
pub fn item_id_for(value: &str) -> (r: String)
    ensures
        r@ == item_id_of(value@),
        r@.len() == 16,
{
    let digest = sha256_digest(value.as_bytes());
    let text = hex_encode(&digest);
    let chars = chars_of(&text);
    assert(chars@.subrange(0, 16) =~= chars@.take(16));
    text_between(&chars, 0, 16)
}

/// Hides the secrets in a URL.
pub fn mask_url(value: &str) -> (r: String)
    ensures
        r@ == replaced_of(secret_pattern(), value@, "$1***"@),
{
    replace_matches(r"(?i)([?&](?:token|key|auth|pass|password)=)[^&\s]+", value, "$1***")
}

/// Hides the secrets in a message.
pub fn redact_secrets(value: &str) -> (r: String)
    ensures
        r@ == replaced_of(secret_pattern(), value@, "$1[redacted]"@),
{
    replace_matches(r"(?i)([?&](?:token|key|auth|pass|password)=)[^&\s]+", value, "$1[redacted]")
}

/// Whether a character may not stand in a file name.
pub open spec fn is_forbidden(c: char) -> bool {
    ||| c == '<'
    ||| c == '>'
    ||| c == ':'
    ||| c == '"'
    ||| c == '/'
    ||| c == '\\'
    ||| c == '|'
    ||| c == '?'
    ||| c == '*'
    ||| is_control_code(c)
}

/// A character that may stand in a file name: an underscore in place of one
/// that may not.
pub open spec fn safe_char(c: char) -> char {
    if is_forbidden(c) {
        '_'
    } else {
        c
    }
}

/// A text of characters that may stand in a file name, with one blank in
/// place of each run of white space.
pub open spec fn collapsed(text: Seq<char>) -> Seq<char>
    decreases text.len(),
{
    if text.len() == 0 {
        Seq::empty()
    } else {
        let before = collapsed(text.drop_last());
        let c = safe_char(text.last());
        if !is_space(c) {
            before.push(c)
        } else if text.len() > 1 && is_space(safe_char(text[text.len() - 2])) {
            before
        } else {
            before.push(' ')
        }
    }
}

/// The file name for a title: its first 150 characters, cleaned, or the word
/// `torrent` where nothing is left of it.
pub open spec fn filename_of(text: Seq<char>) -> Seq<char> {
    let cleaned = trimmed(collapsed(text));
    let name = if cleaned.len() == 0 {
        "torrent"@
    } else {
        cleaned
    };
    if name.len() > 150 {
        name.take(150)
    } else {
        name
    }
}

/// Makes a file name of a title.
pub fn sanitize_filename(value: &str) -> (r: String)
    ensures
        r@ == filename_of(value@),
{
    let mut output = String::new();
    let mut last_was_space = false;
    for character in iter: value.chars()
        invariant
            iter.seq() == value@,
            output@ == collapsed(iter.seq().take(iter.index() as int)),
            last_was_space == (iter.index() > 0 && is_space(
                safe_char(iter.seq()[iter.index() - 1]),
            )),
    {
        let ghost seen = iter.seq().take(iter.index() as int);
        let ghost longer = iter.seq().take(iter.index() as int + 1);
        assert(longer.drop_last() =~= seen);
        let invalid = character == '<' || character == '>' || character == ':' || character == '"'
            || character == '/' || character == '\\' || character == '|' || character == '?'
            || character == '*' || character.is_control();
        let safe = if invalid {
            '_'
        } else {
            character
        };
        if safe.is_whitespace() {
            if !last_was_space {
                output.push(' ');
            }
            last_was_space = true;
        } else {
            output.push(safe);
            last_was_space = false;
        }
    }
    assert(value@.take(value@.len() as int) =~= value@);
    let cleaned = trim(&output);
    let name = if cleaned.as_str().is_empty() {
        "torrent".to_string()
    } else {
        cleaned
    };
    let chars = chars_of(&name);
    let end: usize = if chars.len() > 150 {
        150
    } else {
        chars.len()
    };
    assert(chars@.subrange(0, end as int) =~= chars@.take(end as int));
    assert(name@.take(name@.len() as int) =~= name@);
    text_between(&chars, 0, end)
}

/// Whether a text has only characters that may stand in a file name, no white
/// space but single blanks.
pub open spec fn is_clean(text: Seq<char>) -> bool {
    &&& forall|i: int|
        0 <= i < text.len() ==> !is_forbidden(#[trigger] text[i]) && (is_space(text[i]) ==> text[i]
            == ' ')
    &&& forall|i: int|
        0 < i < text.len() && text[i - 1] == ' ' ==> #[trigger] text[i] != ' '
}

proof fn lemma_collapsed_is_clean(text: Seq<char>)
    ensures
        is_clean(collapsed(text)),
        text.len() == 0 ==> collapsed(text).len() == 0,
        text.len() > 0 ==> collapsed(text).len() > 0 && (is_space(safe_char(text.last()))
            <==> collapsed(text).last() == ' '),
    decreases text.len(),
{
    if text.len() > 0 {
        lemma_collapsed_is_clean(text.drop_last());
        assert(!is_forbidden('_') && !is_space('_') && !is_forbidden(' ') && is_space(' '));
    }
}

/// A part of a clean text is clean.
proof fn lemma_clean_part(text: Seq<char>, start: int, end: int)
    requires
        is_clean(text),
        0 <= start <= end <= text.len(),
    ensures
        is_clean(text.subrange(start, end)),
{
    let part = text.subrange(start, end);
    assert forall|i: int| 0 <= i < part.len() implies !is_forbidden(#[trigger] part[i]) && (is_space(
        part[i],
    ) ==> part[i] == ' ') by {
        assert(part[i] == text[start + i]);
    }
    assert forall|i: int|
        0 < i < part.len() && part[i - 1] == ' ' implies #[trigger] part[i] != ' ' by {
        assert(part[i - 1] == text[start + i - 1]);
        assert(part[i] == text[start + i]);
    }
}

/// Collapsing spares a clean text.
proof fn lemma_clean_is_spared(text: Seq<char>)
    requires
        is_clean(text),
    ensures
        collapsed(text) == text,
    decreases text.len(),
{
    if text.len() > 0 {
        let rest = text.drop_last();
        assert(rest =~= text.subrange(0, text.len() - 1));
        lemma_clean_part(text, 0, text.len() - 1);
        lemma_clean_is_spared(rest);
        assert(rest.push(text.last()) =~= text);
        assert(!is_forbidden(text.last()));
        if text.len() > 1 {
            assert(!is_forbidden(text[text.len() - 2]));
        }
    } else {
        assert(collapsed(text) =~= text);
    }
}

/// What trimming leaves is a part of the text.
proof fn lemma_trimmed_is_part(text: Seq<char>)
    ensures
        exists|start: int, end: int|
            0 <= start <= end <= text.len() && trimmed(text) == #[trigger] text.subrange(start, end),
{
    let start = lemma_trim_start_is_part(text);
    let rest = crate::text::trim_start(text);
    let end = lemma_trim_end_is_part(rest);
    assert(trimmed(text) =~= text.subrange(start, start + end));
}

proof fn lemma_trim_start_is_part(text: Seq<char>) -> (start: int)
    ensures
        0 <= start <= text.len(),
        crate::text::trim_start(text) == text.subrange(start, text.len() as int),
    decreases text.len(),
{
    if text.len() > 0 && is_space(text[0]) {
        let start = lemma_trim_start_is_part(text.drop_first());
        assert(text.drop_first().subrange(start, text.len() - 1) =~= text.subrange(
            start + 1,
            text.len() as int,
        ));
        start + 1
    } else {
        assert(text.subrange(0, text.len() as int) =~= text);
        0
    }
}

proof fn lemma_trim_end_is_part(text: Seq<char>) -> (end: int)
    ensures
        0 <= end <= text.len(),
        crate::text::trim_end(text) == text.subrange(0, end),
    decreases text.len(),
{
    if text.len() > 0 && is_space(text.last()) {
        let end = lemma_trim_end_is_part(text.drop_last());
        assert(text.drop_last().subrange(0, end) =~= text.subrange(0, end));
        end
    } else {
        assert(text.subrange(0, text.len() as int) =~= text);
        text.len() as int
    }
}

/// Every title gives a file name: one to 150 characters, none of them
/// forbidden, none of them white space but single blanks, and no blank at the
/// beginning.
pub proof fn law_filename_is_safe(title: Seq<char>)
    ensures
        1 <= filename_of(title).len() <= 150,
        is_clean(filename_of(title)),
        filename_of(title)[0] != ' ',
{
    reveal_strlit("torrent");
    let cleaned = trimmed(collapsed(title));
    lemma_collapsed_is_clean(title);
    lemma_trimmed_is_part(collapsed(title));
    let (start, end) = choose|start: int, end: int|
        0 <= start <= end <= collapsed(title).len() && cleaned == #[trigger] collapsed(
            title,
        ).subrange(start, end);
    lemma_clean_part(collapsed(title), start, end);
    lemma_trimmed_edges(collapsed(title));
    assert(is_space(' '));
    if cleaned.len() > 150 {
        lemma_clean_part(cleaned, 0, 150);
        assert(cleaned.take(150) =~= cleaned.subrange(0, 150));
    }
}

/// A file name is left as it is when it is made into a file name again,
/// unless it was cut off behind a blank.
pub proof fn law_filename_is_stable(title: Seq<char>)
    requires
        filename_of(title).last() != ' ',
    ensures
        filename_of(filename_of(title)) == filename_of(title),
{
    let name = filename_of(title);
    law_filename_is_safe(title);
    lemma_clean_is_spared(name);
    assert(!is_space(name[0]) && !is_space(name.last()));
    lemma_trim_fixed(name);
}

/// What the file system says of a path: its parts, as the system takes them
/// apart, and what is found there.
#[derive(Debug)]
pub struct PathFacts {
    pub path: String,
    pub file_name: Option<String>,
    pub parent: Option<String>,
    pub parent_is_dir: bool,
    pub is_file: bool,
    pub is_dir: bool,
    pub exists: bool,
}

/// The folder that a path leads to: itself, or the one that it would be in.
pub open spec fn folder_of(facts: PathFacts) -> Option<Seq<char>> {
    if facts.path@.len() == 0 {
        None
    } else if facts.is_dir {
        Some(facts.path@)
    } else if facts.is_file || facts.parent_is_dir {
        optional(facts.parent)
    } else {
        None
    }
}

/// Finds the folder that a path leads to.
pub fn existing_folder(candidate: &PathFacts) -> (r: Option<String>)
    ensures
        optional(r) == folder_of(*candidate),
{
    if candidate.path.as_str().is_empty() {
        return None;
    }
    if candidate.is_dir {
        return Some(candidate.path.clone());
    }
    if candidate.is_file || candidate.parent_is_dir {
        return crate::text::clone_optional(&candidate.parent);
    }
    None
}

/// The extension of the backup of a file: `bak` behind its own.
pub fn backup_extension(extension: &Option<String>) -> (r: String)
    ensures
        r@ == match optional(*extension) {
            Some(extension) => extension + ".bak"@,
            None => "bak"@,
        },
{
    match extension {
        Some(extension) => joined(extension, ".bak"),
        None => "bak".to_string(),
    }
}

/// A text without the byte order marks that it begins with.
pub fn strip_byte_order_mark(text: &str) -> (r: String)
    ensures
        r@ == without_leading(text@, '\u{feff}'),
{
    trim_leading(text, '\u{feff}')
}

/// The extension of a file that is written before it takes its place.
pub fn temporary_extension(process: u32) -> (r: String)
    ensures
        r@ == decimal_text(process as nat) + ".tmp"@,
{
    joined(&decimal(process as u64), ".tmp")
}

/// What is said where neither a state file nor its backup can be read.
pub fn unreadable_message(primary: &str, backup: &str) -> (r: String)
    ensures
        r@ == "状态文件和备份都无法读取："@ + primary@ + "；备份错误："@ + backup@,
{
    let mut text = joined("状态文件和备份都无法读取：", primary);
    text.append("；备份错误：");
    text.append(backup);
    text
}

} // verus!
