//! Logging in.

use aes::Aes256;
use base64::Engine;
use cbc::cipher::block_padding::Pkcs7;
use cbc::cipher::{BlockDecryptMut, KeyIvInit};
use hmac::Mac;
use mikan::bitcomet::login::{
    client_device_id, credentials, encrypt_authentication, seal, Salts, TokenCache,
};

#[test]
fn creates_stable_uuid_device_id() {
    let first = client_device_id(r"C:\Program Files\BitComet\BitComet_x64.exe");
    let second = client_device_id(r"c:\program files\bitcomet\bitcomet_x64.exe");
    assert_eq!(first, second);
    assert_eq!(first.len(), 36);
    assert_eq!(&first[8..9], "-");
    assert_eq!(&first[13..14], "-");
    assert_eq!(&first[18..19], "-");
    assert_eq!(&first[23..24], "-");
    assert_eq!(first, "44543c1b-1fa3-4118-847c-c6b191b1a680");
}

#[test]
fn tells_devices_apart() {
    assert_ne!(client_device_id("a"), client_device_id("b"));
    assert_eq!(&client_device_id("a")[14..15], "4");
}

fn unseal(sealed: &str, password: &str) -> Vec<u8> {
    let payload = base64::engine::general_purpose::STANDARD.decode(sealed).unwrap();
    assert_eq!(&payload[..2], &[3, 1]);
    let (body, code) = payload.split_at(payload.len() - 32);
    let mut key = [0u8; 32];
    let mut hmac_key = [0u8; 32];
    pbkdf2::pbkdf2_hmac::<sha1::Sha1>(password.as_bytes(), &body[2..10], 10_000, &mut key);
    pbkdf2::pbkdf2_hmac::<sha1::Sha1>(password.as_bytes(), &body[10..18], 10_000, &mut hmac_key);
    let mut mac = hmac::Hmac::<sha2::Sha256>::new_from_slice(&hmac_key).unwrap();
    mac.update(body);
    assert_eq!(mac.finalize().into_bytes().to_vec(), code.to_vec());
    cbc::Decryptor::<Aes256>::new_from_slices(&key, &body[18..34])
        .unwrap()
        .decrypt_padded_vec_mut::<Pkcs7>(&body[34..])
        .unwrap()
}

#[test]
fn seals_what_the_password_opens() {
    let salts = Salts { key: (0..8).collect(), hmac: (8..16).collect(), iv: (16..32).collect() };
    let sealed = seal("some text of more than one block", "password", &salts);
    assert_eq!(unseal(&sealed, "password"), b"some text of more than one block");
    assert_eq!(sealed, seal("some text of more than one block", "password", &salts));
    let payload = base64::engine::general_purpose::STANDARD.decode(&sealed).unwrap();
    assert_eq!(&payload[2..34], &(0..32).collect::<Vec<u8>>()[..]);
    assert_eq!(payload.len(), 34 + 48 + 32);
}

#[test]
fn seals_with_random_bytes() {
    let first = encrypt_authentication("text", "password").unwrap();
    let second = encrypt_authentication("text", "password").unwrap();
    assert_ne!(first, second);
    assert_eq!(unseal(&first, "password"), b"text");
    assert_eq!(unseal(&second, "password"), b"text");
}

#[test]
fn writes_credentials_as_json() {
    assert_eq!(credentials("u\"", "p"), r#"{"password":"p","username":"u\""}"#);
}

#[test]
fn remembers_one_token_for_each_address() {
    let mut cache = TokenCache::new();
    assert_eq!(cache.get("a"), None);
    cache.insert("a".to_string(), "1".to_string());
    cache.insert("b".to_string(), "2".to_string());
    cache.insert("a".to_string(), "3".to_string());
    assert_eq!(cache.get("a").as_deref(), Some("3"));
    assert_eq!(cache.get("b").as_deref(), Some("2"));
    cache.remove("a");
    assert_eq!(cache.get("a"), None);
    assert_eq!(cache.get("b").as_deref(), Some("2"));
}

#[test]
fn gathers_random_bytes_or_the_first_fault() {
    let fault = |text: &str| Err(text.to_string());
    let salts = Salts::gathered(Ok(vec![1; 8]), Ok(vec![2; 8]), Ok(vec![3; 16])).unwrap();
    assert_eq!((salts.key, salts.hmac, salts.iv), (vec![1; 8], vec![2; 8], vec![3; 16]));
    assert_eq!(Salts::gathered(fault("a"), fault("b"), fault("c")).unwrap_err(), "a");
    assert_eq!(Salts::gathered(Ok(vec![]), fault("b"), fault("c")).unwrap_err(), "b");
    assert_eq!(Salts::gathered(Ok(vec![]), Ok(vec![]), fault("c")).unwrap_err(), "c");
    let salts = Salts::random().unwrap();
    assert_eq!((salts.key.len(), salts.hmac.len(), salts.iv.len()), (8, 8, 16));
}

#[test]
fn gives_the_device_an_identity_of_hexadecimal_digits() {
    for (at, c) in client_device_id("x").chars().enumerate() {
        match at {
            8 | 13 | 18 | 23 => assert_eq!(c, '-'),
            14 => assert_eq!(c, '4'),
            _ => assert!(matches!(c, '0'..='9' | 'a'..='f')),
        }
    }
}
