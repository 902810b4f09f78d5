//! Logging in to the web interface: the identity of this device, the sealed
//! credentials and the tokens that were given before.

use vstd::prelude::*;
use vstd::string::*;
use vstd::utf8::*;

use crate::outside::{
    base64_encode, base64_text, derive_key, derived_key_of, encrypt, encrypted_of, hex_encode,
    hex_text, hmac_of, hmac_sha256, json_text, json_text_of, members_view, random_bytes, same_text,
    sha256_digest, sha256_of,
};
use crate::text::{is_hex_digit, lemma_hex_text, lower, optional, to_lower};

verus! {

/// The sixteen bytes of a UUID: those of a digest, with the marks of version
/// and variant.
pub open spec fn uuid_bytes(digest: Seq<u8>) -> Seq<u8> {
    Seq::new(
        16,
        |i: int|
            if i == 6 {
                (digest[6] % 16 + 64) as u8
            } else if i == 8 {
                (digest[8] % 64 + 128) as u8
            } else {
                digest[i]
            },
    )
}

/// A UUID in writing.
pub open spec fn uuid_text(bytes: Seq<u8>) -> Seq<char> {
    hex_text(bytes.subrange(0, 4)) + "-"@ + hex_text(bytes.subrange(4, 6)) + "-"@ + hex_text(
        bytes.subrange(6, 8),
    ) + "-"@ + hex_text(bytes.subrange(8, 10)) + "-"@ + hex_text(bytes.subrange(10, 16))
}

/// The identity of this device for an executable, from the path of which it
/// is made.
pub open spec fn device_id_of(executable: Seq<char>) -> Seq<char> {
    uuid_text(uuid_bytes(sha256_of(encode_utf8(lower(executable)))))
}

/// Whether a hyphen stands at a place of a UUID.
pub open spec fn is_hyphen_place(at: int) -> bool {
    at == 8 || at == 13 || at == 18 || at == 23
}

/// Whether a text has the shape of a UUID: hexadecimal digits in groups of
/// eight, four, four, four and twelve, with a hyphen between any two. The third
/// group begins with the version, and the fourth with the variant.
pub open spec fn is_uuid_shaped(text: Seq<char>) -> bool {
    &&& text.len() == 36
    &&& forall|i: int|
        0 <= i < 36 ==> if is_hyphen_place(i) {
            #[trigger] text[i] == '-'
        } else {
            is_hex_digit(text[i])
        }
    &&& text[14] == '4'
    &&& text[19] == '8' || text[19] == '9' || text[19] == 'a' || text[19] == 'b'
}

/// Every digest gives a UUID.
pub proof fn law_uuid_has_its_shape(digest: Seq<u8>)
    requires
        digest.len() >= 16,
    ensures
        is_uuid_shaped(uuid_text(uuid_bytes(digest))),
{
    reveal_strlit("-");
    let bytes = uuid_bytes(digest);
    let text = uuid_text(bytes);
    assert(bytes.subrange(6, 8)[0] == bytes[6]);
    assert(bytes.subrange(8, 10)[0] == bytes[8]);
    let version = hex_text(bytes.subrange(6, 8));
    let variant = hex_text(bytes.subrange(8, 10));
    assert(text[14] == version[0]);
    assert(text[19] == variant[0]);
    assert(64 <= bytes[6] < 80);
    assert(128 <= bytes[8] < 192);
    let first = hex_text(bytes.subrange(0, 4));
    let second = hex_text(bytes.subrange(4, 6));
    let last = hex_text(bytes.subrange(10, 16));
    lemma_hex_text(bytes.subrange(0, 4));
    lemma_hex_text(bytes.subrange(4, 6));
    lemma_hex_text(bytes.subrange(6, 8));
    lemma_hex_text(bytes.subrange(8, 10));
    lemma_hex_text(bytes.subrange(10, 16));
    assert forall|i: int| 0 <= i < 36 implies if is_hyphen_place(i) {
        #[trigger] text[i] == '-'
    } else {
        is_hex_digit(text[i])
    } by {
        if i < 8 {
            assert(text[i] == first[i]);
        } else if 8 < i < 13 {
            assert(text[i] == second[i - 9]);
        } else if 13 < i < 18 {
            assert(text[i] == version[i - 14]);
        } else if 18 < i < 23 {
            assert(text[i] == variant[i - 19]);
        } else if i > 23 {
            assert(text[i] == last[i - 24]);
        }
    }
}

/// The identity does not depend on the case of the letters in the path.
pub proof fn law_device_id_ignores_case(left: Seq<char>, right: Seq<char>)
    requires
        lower(left) == lower(right),
    ensures
        device_id_of(left) == device_id_of(right),
{
}

fn hex_part(bytes: &Vec<u8>, start: usize, end: usize) -> (r: String)
    requires
        start <= end <= bytes@.len(),
    ensures
        r@ == hex_text(bytes@.subrange(start as int, end as int)),
{
    let mut part: Vec<u8> = Vec::new();
    let mut i: usize = start;
    while i < end
        invariant
            start <= i <= end <= bytes@.len(),
            part@ == bytes@.subrange(start as int, i as int),
        decreases end - i,
    {
        part.push(bytes[i]);
        i += 1;
    }
    hex_encode(&part)
}

/// Makes the identity of this device for an executable.
pub fn client_device_id(executable: &str) -> (r: String)
    ensures
        r@ == device_id_of(executable@),
        is_uuid_shaped(r@),
{
    let lowered = to_lower(executable);
    let digest = sha256_digest(lowered.as_str().as_bytes());
    let mut bytes: Vec<u8> = Vec::new();
    let mut i: usize = 0;
    while i < 16
        invariant
            i <= 16,
            digest@.len() == 32,
            bytes@ == uuid_bytes(digest@).take(i as int),
        decreases 16 - i,
    {
        let byte = digest[i];
        if i == 6 {
            bytes.push(byte % 16 + 64);
        } else if i == 8 {
            bytes.push(byte % 64 + 128);
        } else {
            bytes.push(byte);
        }
        i += 1;
    }
    assert(bytes@ =~= uuid_bytes(digest@));
    proof {
        law_uuid_has_its_shape(digest@);
    }
    let mut text = hex_part(&bytes, 0, 4);
    text.append("-");
    text.append(&hex_part(&bytes, 4, 6));
    text.append("-");
    text.append(&hex_part(&bytes, 6, 8));
    text.append("-");
    text.append(&hex_part(&bytes, 8, 10));
    text.append("-");
    text.append(&hex_part(&bytes, 10, 16));
    text
}

/// The rounds in which a key is derived.
pub const KEY_ROUNDS: u32 = 10_000;

/// What is sealed before the code that guards it: the version of the format,
/// the salts, the initial block and the encrypted text.
pub open spec fn sealed_body(
    plaintext: Seq<u8>,
    password: Seq<u8>,
    salt_key: Seq<u8>,
    salt_hmac: Seq<u8>,
    iv: Seq<u8>,
) -> Seq<u8> {
    seq![3u8, 1u8] + salt_key + salt_hmac + iv + encrypted_of(
        derived_key_of(password, salt_key, KEY_ROUNDS),
        iv,
        plaintext,
    )
}

/// A text that is sealed with a password: encrypted, guarded by a code over
/// all of it, and written in base64.
pub open spec fn sealed(
    plaintext: Seq<u8>,
    password: Seq<u8>,
    salt_key: Seq<u8>,
    salt_hmac: Seq<u8>,
    iv: Seq<u8>,
) -> Seq<char> {
    let body = sealed_body(plaintext, password, salt_key, salt_hmac, iv);
    base64_text(body + hmac_of(derived_key_of(password, salt_hmac, KEY_ROUNDS), body))
}

fn append_bytes(target: &mut Vec<u8>, bytes: &Vec<u8>)
    ensures
        final(target)@ == old(target)@ + bytes@,
{
    let ghost before = target@;
    let mut i: usize = 0;
    while i < bytes.len()
        invariant
            i <= bytes@.len(),
            target@ == before + bytes@.take(i as int),
        decreases bytes@.len() - i,
    {
        target.push(bytes[i]);
        assert(before + bytes@.take(i + 1) =~= (before + bytes@.take(i as int)).push(
            bytes@[i as int],
        ));
        i += 1;
    }
    assert(bytes@.take(i as int) =~= bytes@);
}

/// The random bytes that go into a sealed text.
#[derive(Debug)]
pub struct Salts {
    pub key: Vec<u8>,
    pub hmac: Vec<u8>,
    pub iv: Vec<u8>,
}

impl Salts {
    /// Whether there are as many bytes of each as there have to be.
    pub open spec fn wf(self) -> bool {
        self.key@.len() == 8 && self.hmac@.len() == 8 && self.iv@.len() == 16
    }

    /// Random bytes, where the system has any. Whether it has, and which bytes
    /// they are, is up to its random source; what comes of them is said by
    /// `gathered`.
    pub fn random() -> (r: Result<Salts, String>)
        ensures
            r matches Ok(salts) ==> salts.wf(),
    {
        Salts::gathered(random_bytes(8), random_bytes(8), random_bytes(16))
    }

    /// The random bytes that go into a sealed text, given what the random
    /// source gave for each part. Where it failed, the first fault counts.
    pub fn gathered(
        key: Result<Vec<u8>, String>,
        hmac: Result<Vec<u8>, String>,
        iv: Result<Vec<u8>, String>,
    ) -> (r: Result<Salts, String>)
        ensures
            r == match (key, hmac, iv) {
                (Err(fault), _, _) => Err::<Salts, String>(fault),
                (_, Err(fault), _) => Err(fault),
                (_, _, Err(fault)) => Err(fault),
                (Ok(key), Ok(hmac), Ok(iv)) => Ok((Salts { key, hmac, iv })),
            },
    {
        match (key, hmac, iv) {
            (Ok(key), Ok(hmac), Ok(iv)) => Ok(Salts { key, hmac, iv }),
            (Err(fault), _, _) => Err(fault),
            (_, Err(fault), _) => Err(fault),
            (_, _, Err(fault)) => Err(fault),
        }
    }
}

/// The longest text whose sealed form can be held in memory: a quarter of what
/// can be counted, less what is added to it before it is written in base64.
pub const LONGEST_PLAINTEXT: usize = usize::MAX / 4 - 82;

/// Seals a text with a password and given random bytes.
pub fn seal(plaintext: &str, password: &str, salts: &Salts) -> (r: String)
    requires
        salts.wf(),
        encode_utf8(plaintext@).len() <= LONGEST_PLAINTEXT,
    ensures
        r@ == sealed(
            encode_utf8(plaintext@),
            encode_utf8(password@),
            salts.key@,
            salts.hmac@,
            salts.iv@,
        ),
{
    let plaintext = plaintext.as_bytes();
    let password = password.as_bytes();
    let key = derive_key(password, &salts.key, KEY_ROUNDS);
    let hmac_key = derive_key(password, &salts.hmac, KEY_ROUNDS);
    let encrypted = encrypt(&key, &salts.iv, plaintext);
    let mut payload: Vec<u8> = vec![3, 1];
    append_bytes(&mut payload, &salts.key);
    append_bytes(&mut payload, &salts.hmac);
    append_bytes(&mut payload, &salts.iv);
    append_bytes(&mut payload, &encrypted);
    assert(payload@ =~= sealed_body(
        plaintext@,
        password@,
        salts.key@,
        salts.hmac@,
        salts.iv@,
    ));
    let code = hmac_sha256(&hmac_key, &payload);
    append_bytes(&mut payload, &code);
    base64_encode(&payload)
}

/// Seals a text with a password and random bytes. A text that is too long to
/// be held in memory in its sealed form is refused.
pub fn encrypt_authentication(plaintext: &str, password: &str) -> (r: Result<String, String>)
    ensures
        match r {
            Ok(text) => encode_utf8(plaintext@).len() <= LONGEST_PLAINTEXT && exists|salts: Salts|
                #[trigger] salts.wf() && text@ == sealed(
                    encode_utf8(plaintext@),
                    encode_utf8(password@),
                    salts.key@,
                    salts.hmac@,
                    salts.iv@,
                ),
            Err(message) => encode_utf8(plaintext@).len() > LONGEST_PLAINTEXT ==> message@
                == "Credentials are too long"@,
        },
{
    if plaintext.as_bytes().len() > LONGEST_PLAINTEXT {
        return Err("Credentials are too long".to_string());
    }
    match Salts::random() {
        Ok(salts) => Ok(seal(plaintext, password, &salts)),
        Err(fault) => Err(fault),
    }
}

/// The credentials as they are sealed.
pub open spec fn credentials_of(username: Seq<char>, password: Seq<char>) -> Seq<char> {
    json_text_of(seq![("username"@, username), ("password"@, password)])
}

/// Writes the credentials as they are sealed.
pub fn credentials(username: &str, password: &str) -> (r: String)
    ensures
        r@ == credentials_of(username@, password@),
{
    let members = vec![
        ("username".to_string(), username.to_string()),
        ("password".to_string(), password.to_string()),
    ];
    assert(members_view(members@) =~= seq![("username"@, username@), ("password"@, password@)]);
    json_text(members)
}

/// The tokens that were given, by the address that gave them.
#[derive(Debug)]
pub struct TokenCache {
    entries: Vec<(String, String)>,
}

spec fn tokens_in(entries: Seq<(String, String)>) -> Map<Seq<char>, Seq<char>>
    decreases entries.len(),
{
    if entries.len() == 0 {
        Map::empty()
    } else {
        tokens_in(entries.drop_last()).insert(entries.last().0@, entries.last().1@)
    }
}

impl View for TokenCache {
    type V = Map<Seq<char>, Seq<char>>;

    closed spec fn view(&self) -> Map<Seq<char>, Seq<char>> {
        tokens_in(self.entries@)
    }
}

impl TokenCache {
    /// No tokens.
    pub fn new() -> (r: TokenCache)
        ensures
            r@ == Map::<Seq<char>, Seq<char>>::empty(),
    {
        TokenCache { entries: Vec::new() }
    }

    /// The token that an address gave.
    pub fn get(&self, base: &str) -> (r: Option<String>)
        ensures
            optional(r) == if self@.contains_key(base@) {
                Some(self@[base@])
            } else {
                None
            },
    {
        let mut i: usize = self.entries.len();
        assert(self.entries@.take(i as int) =~= self.entries@);
        while i > 0
            invariant
                i <= self.entries@.len(),
                tokens_in(self.entries@.take(i as int)).contains_key(base@) == self@.contains_key(
                    base@,
                ),
                self@.contains_key(base@) ==> tokens_in(self.entries@.take(i as int))[base@]
                    == self@[base@],
            decreases i,
        {
            assert(self.entries@.take(i as int).drop_last() =~= self.entries@.take(i - 1));
            if same_text(&self.entries[i - 1].0, base) {
                return Some(self.entries[i - 1].1.clone());
            }
            i -= 1;
        }
        None
    }

    /// Forgets the token that an address gave.
    pub fn remove(&mut self, base: &str)
        ensures
            final(self)@ == old(self)@.remove(base@),
    {
        let mut kept: Vec<(String, String)> = Vec::new();
        let mut i: usize = 0;
        assert(tokens_in(self.entries@.take(0)).remove(base@) =~= Map::empty());
        while i < self.entries.len()
            invariant
                i <= self.entries@.len(),
                tokens_in(kept@) == tokens_in(self.entries@.take(i as int)).remove(base@),
            decreases self.entries@.len() - i,
        {
            let ghost longer = self.entries@.take(i + 1);
            assert(longer.drop_last() =~= self.entries@.take(i as int));
            if !same_text(&self.entries[i].0, base) {
                let ghost before = kept@;
                kept.push((self.entries[i].0.clone(), self.entries[i].1.clone()));
                assert(kept@.drop_last() =~= before);
            }
            assert(tokens_in(kept@) =~= tokens_in(longer).remove(base@));
            i += 1;
        }
        assert(self.entries@.take(i as int) =~= self.entries@);
        self.entries = kept;
    }

    /// Remembers the token that an address gave, in place of an earlier one.
    pub fn insert(&mut self, base: String, token: String)
        ensures
            final(self)@ == old(self)@.insert(base@, token@),
    {
        let ghost before = self@;
        self.remove(&base);
        let ghost kept = self.entries@;
        self.entries.push((base, token));
        assert(self.entries@.drop_last() =~= kept);
        assert(self@ =~= before.insert(base@, token@));
    }
}

} // verus!
