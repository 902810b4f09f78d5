//! What the library takes on trust: the functions of std and of outside
//! crates that it calls, each with what is claimed of it.

use vstd::prelude::*;
use vstd::string::*;
use vstd::utf8::*;

use crate::nesting::{nesting_of, DEEPEST_NESTING};
use crate::xml::{nodes_view, NodeView, XmlAttribute, XmlNode};

verus! {

/// Whether a character has the Unicode property `White_Space`.
pub open spec fn is_space(c: char) -> bool {
    let code = c as u32;
    ||| 0x9 <= code <= 0xd
    ||| code == 0x20
    ||| code == 0x85
    ||| code == 0xa0
    ||| code == 0x1680
    ||| 0x2000 <= code <= 0x200a
    ||| code == 0x2028
    ||| code == 0x2029
    ||| code == 0x202f
    ||| code == 0x205f
    ||| code == 0x3000
}

/// Whether a character is in the Unicode category `Cc`.
pub open spec fn is_control_code(c: char) -> bool {
    c as u32 <= 0x1f || 0x7f <= c as u32 <= 0x9f
}

/// `String::push` appends one character.
pub assume_specification[ String::push ](text: &mut String, c: char)
    ensures
        final(text)@ == old(text)@.push(c),
;

/// `char::is_whitespace` tells the characters with the property
/// `White_Space`.
pub assume_specification[ char::is_whitespace ](c: char) -> (r: bool)
    ensures
        r == is_space(c),
;

/// `char::is_control` tells the characters of the category `Cc`.
pub assume_specification[ char::is_control ](c: char) -> (r: bool)
    ensures
        r == is_control_code(c),
;

/// `char::from_u32` gives the character with a code, where there is one: a
/// code up to `10FFFF` that is no surrogate.
pub assume_specification[ char::from_u32 ](code: u32) -> (r: Option<char>)
    ensures
        r matches Some(c) ==> c as int == code,
        r is Some <==> (code <= 0xd7ff || 0xe000 <= code <= 0x10ffff),
;

/// `str::eq` compares two texts character by character.
#[verifier::external_body]
pub(crate) fn same_text(left: &str, right: &str) -> (r: bool)
    ensures
        r == (left@ == right@),
{
    left == right
}

/// The lower-case hexadecimal digit for a number below sixteen.
pub open spec fn hex_digit(value: int) -> char {
    if value < 10 {
        (0x30 + value) as char
    } else {
        (0x57 + value) as char
    }
}

/// Bytes in lower-case hexadecimal, two digits for each.
pub open spec fn hex_text(data: Seq<u8>) -> Seq<char> {
    Seq::new(
        2 * data.len(),
        |i: int|
            hex_digit(
                if i % 2 == 0 {
                    data[i / 2] as int / 16
                } else {
                    data[i / 2] as int % 16
                },
            ),
    )
}

/// `hex::encode` writes each byte as two lower-case hexadecimal digits, the
/// high one first.
#[verifier::external_body]
pub(crate) fn hex_encode(data: &[u8]) -> (r: String)
    ensures
        r@ == hex_text(data@),
{
    hex::encode(data)
}

/// The SHA-1 digest of some bytes.
pub uninterp spec fn sha1_of(data: Seq<u8>) -> Seq<u8>;

/// `Sha1::digest` gives the digest of the bytes, of twenty bytes.
#[verifier::external_body]
pub(crate) fn sha1_digest(data: &[u8]) -> (r: Vec<u8>)
    ensures
        r@ == sha1_of(data@),
        r@.len() == 20,
{
    <sha1::Sha1 as sha1::Digest>::digest(data).to_vec()
}

/// The text that bytes stand for, with U+FFFD where they are no UTF-8.
pub uninterp spec fn lossy_text_of(data: Seq<u8>) -> Seq<char>;

/// `String::from_utf8_lossy` gives the text that the bytes stand for. Bytes
/// that are UTF-8 throughout lose nothing.
#[verifier::external_body]
pub(crate) fn text_from_utf8_lossy(data: &[u8]) -> (r: String)
    ensures
        r@ == lossy_text_of(data@),
        valid_utf8(data@) ==> r@ == decode_utf8(data@),
{
    String::from_utf8_lossy(data).into_owned()
}

/// The SHA-256 digest of some bytes.
pub uninterp spec fn sha256_of(data: Seq<u8>) -> Seq<u8>;

/// `Sha256::digest` gives the digest of the bytes, of thirty-two bytes.
#[verifier::external_body]
pub(crate) fn sha256_digest(data: &[u8]) -> (r: Vec<u8>)
    ensures
        r@ == sha256_of(data@),
        r@.len() == 32,
{
    <sha2::Sha256 as sha2::Digest>::digest(data).to_vec()
}

/// Why bytes are no UTF-8, in the words of std.
pub uninterp spec fn utf8_fault_of(data: Seq<u8>) -> Seq<char>;

/// `std::str::from_utf8` gives the text that UTF-8 stands for, and words on
/// what is wrong with bytes that are no UTF-8.
#[verifier::external_body]
pub(crate) fn text_from_utf8(data: &[u8]) -> (r: Result<String, String>)
    ensures
        match r {
            Ok(text) => valid_utf8(data@) && text@ == decode_utf8(data@),
            Err(fault) => !valid_utf8(data@) && fault@ == utf8_fault_of(data@),
        },
{
    match std::str::from_utf8(data) {
        Ok(text) => Ok(text.to_string()),
        Err(fault) => Err(fault.to_string()),
    }
}

/// The query parameters that hold a secret, with the secret behind each.
pub open spec fn secret_pattern() -> Seq<char> {
    r"(?i)([?&](?:token|key|auth|pass|password)=)[^&\s]+"@
}

/// The path of a BitComet executable in the listing of a registry key.
pub open spec fn executable_pattern() -> Seq<char> {
    r#"(?i)[A-Z]:\\[^\r\n"]*?BitComet(?:_x64)?\.exe"#@
}

/// Whether a pattern is one of the two that this library has, which are both
/// well-formed.
pub open spec fn is_known_pattern(pattern: Seq<char>) -> bool {
    pattern == secret_pattern() || pattern == executable_pattern()
}

/// A text in which each match of a pattern is replaced.
pub uninterp spec fn replaced_of(
    pattern: Seq<char>,
    text: Seq<char>,
    replacement: Seq<char>,
) -> Seq<char>;

/// `Regex::replace_all` replaces each match of a pattern in a text, with `$1`
/// in the replacement standing for the first group of the match. `Regex::new`
/// takes the pattern only if it is well-formed.
#[verifier::external_body]
pub(crate) fn replace_matches(pattern: &str, text: &str, replacement: &str) -> (r: String)
    requires
        is_known_pattern(pattern@),
    ensures
        r@ == replaced_of(pattern@, text@, replacement@),
{
    regex::Regex::new(pattern).unwrap().replace_all(text, replacement).into_owned()
}

/// The matches of a pattern in a text, from its beginning on.
pub uninterp spec fn matches_of(pattern: Seq<char>, text: Seq<char>) -> Seq<Seq<char>>;

/// `Regex::find_iter` gives the matches of a pattern in a text, one after the
/// other. `Regex::new` takes the pattern only if it is well-formed.
#[verifier::external_body]
pub(crate) fn find_matches(pattern: &str, text: &str) -> (r: Vec<String>)
    requires
        is_known_pattern(pattern@),
    ensures
        crate::text::texts(r@) == matches_of(pattern@, text@),
{
    let regex = regex::Regex::new(pattern).unwrap();
    regex.find_iter(text).map(|found| found.as_str().to_string()).collect()
}

/// The last millisecond that the calendar knows, counted from 1970.
pub const LAST_MILLIS: i64 = 8_210_266_876_799_999;

/// The first millisecond of the year 10000.
pub const FIVE_DIGIT_YEARS: i64 = 253_402_300_800_000;

/// `Utc::now` reads the clock: the milliseconds since 1970, within what the
/// calendar knows. Nothing more is said of a clock.
#[verifier::external_body]
pub(crate) fn clock_millis() -> (r: i64)
    ensures
        0 <= r <= LAST_MILLIS,
{
    chrono::Utc::now().timestamp_millis()
}

/// A point in time in the format of RFC 3339, in UTC and to the millisecond.
pub uninterp spec fn rfc3339_text_of(millis: int) -> Seq<char>;

/// The seconds since 1970, and the nanoseconds behind them, of the point in
/// time that a text in the format of RFC 3339 gives.
pub uninterp spec fn rfc3339_of(text: Seq<char>) -> Option<(int, int)>;

/// `DateTime::to_rfc3339_opts` writes a point in time, in UTC and to the
/// millisecond. Up to the year 9999, `DateTime::parse_from_rfc3339` reads it
/// back.
#[verifier::external_body]
pub(crate) fn rfc3339_text(millis: i64) -> (r: String)
    requires
        0 <= millis <= LAST_MILLIS,
    ensures
        r@ == rfc3339_text_of(millis as int),
        millis < FIVE_DIGIT_YEARS ==> rfc3339_of(r@) == Some(
            (millis as int / 1000, (millis as int % 1000) * 1_000_000),
        ),
{
    let time = chrono::DateTime::from_timestamp_millis(millis).unwrap();
    time.to_rfc3339_opts(chrono::SecondsFormat::Millis, true)
}

/// `DateTime::parse_from_rfc3339` reads a point in time, where the text is in
/// the format.
#[verifier::external_body]
pub(crate) fn parse_rfc3339(text: &str) -> (r: Option<(i64, u32)>)
    ensures
        match r {
            Some((seconds, nanos)) => rfc3339_of(text@) == Some((seconds as int, nanos as int)),
            None => rfc3339_of(text@) is None,
        },
{
    let time = chrono::DateTime::parse_from_rfc3339(text).ok()?;
    Some((time.timestamp(), time.timestamp_subsec_nanos()))
}

/// The seconds since 1970 of the point in time that a text in the format of
/// RFC 2822 gives.
pub uninterp spec fn rfc2822_of(text: Seq<char>) -> Option<i64>;

/// `DateTime::parse_from_rfc2822` reads a point in time, where the text is in
/// the format.
#[verifier::external_body]
pub(crate) fn parse_rfc2822(text: &str) -> (r: Option<i64>)
    ensures
        r == rfc2822_of(text@),
{
    Some(chrono::DateTime::parse_from_rfc2822(text).ok()?.timestamp())
}

/// The seconds since 1970 of the point in time, taken as UTC, that a text
/// gives in a format.
pub uninterp spec fn formatted_time_of(text: Seq<char>, format: Seq<char>) -> Option<i64>;

/// `NaiveDateTime::parse_from_str` reads a date and a time in a format, where
/// the text is in it.
#[verifier::external_body]
pub(crate) fn parse_formatted_time(text: &str, format: &str) -> (r: Option<i64>)
    ensures
        r == formatted_time_of(text@, format@),
{
    let time = chrono::NaiveDateTime::parse_from_str(text, format).ok()?;
    Some(time.and_utc().timestamp())
}

/// The scheme of a URL, where a text is one.
pub uninterp spec fn scheme_of(text: Seq<char>) -> Option<Seq<char>>;

/// `Url::parse` reads a URL, and `Url::scheme` gives its scheme.
#[verifier::external_body]
pub(crate) fn url_scheme(text: &str) -> (r: Option<String>)
    ensures
        crate::text::optional(r) == scheme_of(text@),
{
    Some(url::Url::parse(text).ok()?.scheme().to_string())
}

/// The nodes of an XML document, in document order, where a text is one.
pub uninterp spec fn xml_nodes_of(xml: Seq<char>) -> Option<Seq<NodeView>>;

/// `Document::parse` reads an XML document, and `Document::descendants` gives
/// its nodes in document order, the root before all others. A node's parent
/// is given by its place in that order; `Node::text` is the text of the first
/// child where that is text, and `Node::attributes` has the attributes as
/// they are written. It reads an element within that around it, each on the
/// stack, so elements may be nested in at most 256 levels; a document type with
/// entities, which could add to the levels, is refused by it.
#[verifier::external_body]
pub(crate) fn parse_xml(xml: &str) -> (r: Option<Vec<XmlNode>>)
    requires
        nesting_of(xml@) <= DEEPEST_NESTING,
    ensures
        match r {
            Some(nodes) => xml_nodes_of(xml@) == Some(nodes_view(nodes@)),
            None => xml_nodes_of(xml@) is None,
        },
{
    let document = roxmltree::Document::parse(xml).ok()?;
    let nodes = document.descendants().map(|node| XmlNode {
        parent: node.parent().map(|parent| parent.id().get_usize()),
        element: node.is_element(),
        name: node.tag_name().name().to_string(),
        text: node.text().map(|text| text.to_string()),
        attributes: node.attributes().map(|attribute| XmlAttribute {
            namespaced: attribute.namespace().is_some(),
            name: attribute.name().to_string(),
            value: attribute.value().to_string(),
        }).collect(),
    });
    Some(nodes.collect())
}

/// The key that PBKDF2 with HMAC-SHA-1 derives from a password.
pub uninterp spec fn derived_key_of(password: Seq<u8>, salt: Seq<u8>, rounds: u32) -> Seq<u8>;

/// `pbkdf2_hmac::<Sha1>` derives a key, here one of thirty-two bytes, from a
/// password of any length, a salt and a number of rounds.
#[verifier::external_body]
pub(crate) fn derive_key(password: &[u8], salt: &[u8], rounds: u32) -> (r: Vec<u8>)
    ensures
        r@ == derived_key_of(password@, salt@, rounds),
        r@.len() == 32,
{
    let mut key = [0u8; 32];
    pbkdf2::pbkdf2_hmac::<sha1::Sha1>(password, salt, rounds, &mut key);
    key.to_vec()
}

/// Bytes in the encryption of AES-256 in CBC mode, with the padding of PKCS 7.
pub uninterp spec fn encrypted_of(key: Seq<u8>, iv: Seq<u8>, data: Seq<u8>) -> Seq<u8>;

/// `Encryptor::<Aes256>::encrypt_padded_vec_mut::<Pkcs7>` encrypts bytes under
/// a key of thirty-two bytes and an initial block of sixteen. The bytes are
/// filled up to the next multiple of sixteen above their number.
#[verifier::external_body]
pub(crate) fn encrypt(key: &[u8], iv: &[u8], data: &[u8]) -> (r: Vec<u8>)
    requires
        key@.len() == 32,
        iv@.len() == 16,
        data@.len() <= usize::MAX / 4,
    ensures
        r@ == encrypted_of(key@, iv@, data@),
        r@.len() == (data@.len() / 16 + 1) * 16,
{
    let encryptor: cbc::Encryptor<aes::Aes256> =
        cbc::cipher::KeyIvInit::new_from_slices(key, iv).unwrap();
    cbc::cipher::BlockEncryptMut::encrypt_padded_vec_mut::<cbc::cipher::block_padding::Pkcs7>(
        encryptor,
        data,
    )
}

/// The HMAC of bytes under a key, with SHA-256.
pub uninterp spec fn hmac_of(key: Seq<u8>, data: Seq<u8>) -> Seq<u8>;

/// `Hmac::<Sha256>` gives the code of bytes under a key of any length, of
/// thirty-two bytes.
#[verifier::external_body]
pub(crate) fn hmac_sha256(key: &[u8], data: &[u8]) -> (r: Vec<u8>)
    ensures
        r@ == hmac_of(key@, data@),
        r@.len() == 32,
{
    let mut mac = <hmac::Hmac<sha2::Sha256> as hmac::Mac>::new_from_slice(key).unwrap();
    hmac::Mac::update(&mut mac, data);
    hmac::Mac::finalize(mac).into_bytes().to_vec()
}

/// The digit for six bits in base64.
pub open spec fn base64_digit(value: int) -> char {
    if value < 26 {
        (0x41 + value) as char
    } else if value < 52 {
        (0x61 + value - 26) as char
    } else if value < 62 {
        (0x30 + value - 52) as char
    } else if value == 62 {
        '+'
    } else {
        '/'
    }
}

/// A byte, or zero behind the last one.
pub open spec fn byte_or_zero(data: Seq<u8>, at: int) -> int {
    if at < data.len() {
        data[at] as int
    } else {
        0
    }
}

/// Bytes in base64: four digits for each three bytes, filled up with equals
/// signs.
pub open spec fn base64_text(data: Seq<u8>) -> Seq<char> {
    Seq::new(
        4 * ((data.len() + 2) / 3),
        |i: int|
            {
                let at = i / 4 * 3;
                let first = byte_or_zero(data, at);
                let second = byte_or_zero(data, at + 1);
                let third = byte_or_zero(data, at + 2);
                if i % 4 == 0 {
                    base64_digit(first / 4)
                } else if i % 4 == 1 {
                    base64_digit(first % 4 * 16 + second / 16)
                } else if i % 4 == 2 {
                    if at + 1 < data.len() {
                        base64_digit(second % 16 * 4 + third / 64)
                    } else {
                        '='
                    }
                } else if at + 2 < data.len() {
                    base64_digit(third % 64)
                } else {
                    '='
                }
            },
    )
}

/// `STANDARD.encode` writes bytes in base64, in the standard alphabet and
/// with padding.
#[verifier::external_body]
pub(crate) fn base64_encode(data: &[u8]) -> (r: String)
    requires
        data@.len() <= usize::MAX / 4,
    ensures
        r@ == base64_text(data@),
{
    base64::Engine::encode(&base64::engine::general_purpose::STANDARD, data)
}

/// `OsRng::try_fill_bytes` gives bytes of the random source of the system, or
/// says that it has none. Nothing is said of the bytes but their number.
#[verifier::external_body]
pub(crate) fn random_bytes(count: usize) -> (r: Result<Vec<u8>, String>)
    requires
        count <= 64,
    ensures
        r matches Ok(bytes) ==> bytes@.len() == count,
{
    let mut bytes = vec![0u8; count];
    match rand::RngCore::try_fill_bytes(&mut rand::rngs::OsRng, &mut bytes) {
        Ok(()) => Ok(bytes),
        Err(fault) => Err(fault.to_string()),
    }
}

/// The names and texts of the members of an object.
pub open spec fn members_view(members: Seq<(String, String)>) -> Seq<(Seq<char>, Seq<char>)> {
    Seq::new(members.len(), |i: int| (members[i].0@, members[i].1@))
}

/// An object whose members are texts, in JSON.
pub uninterp spec fn json_text_of(members: Seq<(Seq<char>, Seq<char>)>) -> Seq<char>;

/// `serde_json::Value::to_string` writes a value in JSON, here an object
/// whose members are texts.
#[verifier::external_body]
pub(crate) fn json_text(members: Vec<(String, String)>) -> (r: String)
    ensures
        r@ == json_text_of(members_view(members@)),
{
    let members = members.into_iter().map(|(name, text)| (name, serde_json::Value::String(text)));
    serde_json::Value::Object(members.collect()).to_string()
}

} // verus!
