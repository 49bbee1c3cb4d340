//! Encryption of stored secrets (passwords and key paths) with AES-256-GCM.
//! A secret is stored as `enc:` followed by the base64 of a random 12-byte
//! nonce and the ciphertext. Empty text stays empty, and text without the
//! prefix is taken as plaintext stored before encryption was introduced.

use vstd::prelude::*;
use crate::model::Host;
use crate::text::{chars_of, join_str, string_of};
use vstd::string::StringExecFns;
use aes_gcm::aead::{Aead, KeyInit, OsRng};
use aes_gcm::Aes256Gcm;
use base64::Engine;
use rand::RngCore;

verus! {

/// Length of the random nonce that leads each encrypted blob.
pub const NONCE_LEN: usize = 12;

/// AES-256-GCM ciphertext, tag appended, of `plain`'s UTF-8 bytes.
pub uninterp spec fn sealed(key: Seq<u8>, nonce: Seq<u8>, plain: Seq<char>) -> Seq<u8>;

/// The plaintext bytes of an AES-256-GCM ciphertext whose tag checks out.
pub uninterp spec fn opened(key: Seq<u8>, nonce: Seq<u8>, ciphertext: Seq<u8>) -> Option<Seq<u8>>;

/// Standard base64, with padding, of some bytes.
pub uninterp spec fn base64_text(bytes: Seq<u8>) -> Seq<char>;

/// The bytes that a standard base64 text decodes to.
pub uninterp spec fn base64_bytes(text: Seq<char>) -> Option<Seq<u8>>;

/// The text that some bytes hold, when they are valid UTF-8.
pub uninterp spec fn utf8_text(bytes: Seq<u8>) -> Option<Seq<char>>;

/// Relies on aes-gcm's `Aes256Gcm::new` and `Aead::encrypt`: the cipher's
/// output for this key, nonce and plaintext.
#[verifier::external_body]
fn seal(key: &[u8; 32], nonce: &[u8; 12], plain: &str) -> (r: Result<Vec<u8>, String>)
    ensures
        r matches Ok(c) ==> c@ == sealed(key@, nonce@, plain@),
{
    let cipher = Aes256Gcm::new(key.into());
    cipher.encrypt(nonce.into(), plain.as_bytes()).map_err(|e| e.to_string())
}

/// Relies on aes-gcm's `Aes256Gcm::new` and `Aead::decrypt`: the plaintext
/// when the tag checks out under this key and nonce, an error otherwise.
#[verifier::external_body]
fn open(key: &[u8; 32], nonce: &[u8; 12], ciphertext: &[u8]) -> (r: Result<Vec<u8>, String>)
    ensures
        r matches Ok(p) ==> opened(key@, nonce@, ciphertext@) == Some(p@),
        r is Err ==> opened(key@, nonce@, ciphertext@) is None,
{
    let cipher = Aes256Gcm::new(key.into());
    cipher.decrypt(nonce.into(), ciphertext).map_err(|e| e.to_string())
}

/// Relies on base64's `STANDARD.encode`.
#[verifier::external_body]
fn encode_base64(bytes: &Vec<u8>) -> (r: String)
    ensures
        r@ == base64_text(bytes@),
{
    base64::engine::general_purpose::STANDARD.encode(bytes)
}

/// Relies on base64's `STANDARD.decode`.
#[verifier::external_body]
fn decode_base64(text: &str) -> (r: Result<Vec<u8>, String>)
    ensures
        r matches Ok(b) ==> base64_bytes(text@) == Some(b@),
        r is Err ==> base64_bytes(text@) is None,
{
    base64::engine::general_purpose::STANDARD.decode(text).map_err(|e| e.to_string())
}

/// Relies on `String::from_utf8`.
#[verifier::external_body]
fn utf8_string(bytes: Vec<u8>) -> (r: Result<String, String>)
    ensures
        r matches Ok(s) ==> utf8_text(bytes@) == Some(s@),
        r is Err ==> utf8_text(bytes@) is None,
{
    String::from_utf8(bytes).map_err(|e| e.to_string())
}

/// Relies on rand's `RngCore::fill_bytes` over the operating system's
/// generator: twelve random bytes, of which nothing is promised.
#[verifier::external_body]
fn random_nonce() -> (r: [u8; 12]) {
    let mut nonce = [0u8; 12];
    OsRng.fill_bytes(&mut nonce);
    nonce
}

pub open spec fn enc_prefix() -> Seq<char> {
    seq!['e', 'n', 'c', ':']
}

/// The stored form of `plain` under `key` and `nonce`.
pub open spec fn encrypted_form(key: Seq<u8>, nonce: Seq<u8>, plain: Seq<char>) -> Seq<char> {
    enc_prefix() + base64_text(nonce + sealed(key, nonce, plain))
}

/// `s` is a stored form of `plain` under `key`: empty for empty text, else
/// the encrypted form under some nonce.
pub open spec fn is_encryption(s: Seq<char>, key: Seq<u8>, plain: Seq<char>) -> bool {
    if plain.len() == 0 {
        s.len() == 0
    } else {
        exists|nonce: Seq<u8>| nonce.len() == NONCE_LEN && s == #[trigger] encrypted_form(key, nonce, plain)
    }
}

/// Encrypts `plaintext` under a fresh random nonce.
pub fn encrypt(plaintext: &str, key: &[u8; 32]) -> (r: Result<String, String>)
    ensures
        plaintext@.len() == 0 ==> r is Ok,
        r matches Ok(s) ==> is_encryption(s@, key@, plaintext@),
{
    if plaintext.unicode_len() == 0 {
        return Ok(String::new());
    }
    let nonce = random_nonce();
    let ciphertext = seal(key, &nonce, plaintext)?;
    let mut blob: Vec<u8> = Vec::new();
    let mut i: usize = 0;
    while i < NONCE_LEN
        invariant
            0 <= i <= NONCE_LEN,
            nonce@.len() == NONCE_LEN,
            blob@ == nonce@.subrange(0, i as int),
        decreases NONCE_LEN - i,
    {
        blob.push(nonce[i]);
        assert(nonce@.subrange(0, i + 1) =~= nonce@.subrange(0, i as int).push(nonce@[i as int]));
        i = i + 1;
    }
    let mut j: usize = 0;
    while j < ciphertext.len()
        invariant
            0 <= j <= ciphertext@.len(),
            blob@ == nonce@ + ciphertext@.subrange(0, j as int),
        decreases ciphertext@.len() - j,
    {
        blob.push(ciphertext[j]);
        assert(ciphertext@.subrange(0, j + 1) =~= ciphertext@.subrange(0, j as int).push(ciphertext@[j as int]));
        j = j + 1;
    }
    assert(ciphertext@.subrange(0, ciphertext@.len() as int) =~= ciphertext@);
    let text = encode_base64(&blob);
    let prefix = "enc:";
    proof {
        reveal_strlit("enc:");
    }
    let out = join_str(prefix, text.as_str());
    assert(out@ == encrypted_form(key@, nonce@, plaintext@));
    Ok(out)
}

/// What decrypting a stored secret gives: empty text stays empty, text
/// without the `enc:` prefix is returned as it is, and otherwise the rest
/// must decode from base64 into a nonce and a ciphertext whose tag checks out
/// under `key` and whose plaintext is valid UTF-8.
pub open spec fn decryption(encoded: Seq<char>, key: Seq<u8>) -> Option<Seq<char>> {
    if encoded.len() == 0 {
        Some(Seq::empty())
    } else if !(encoded.len() >= 4 && encoded.subrange(0, 4) == enc_prefix()) {
        Some(encoded)
    } else {
        match base64_bytes(encoded.subrange(4, encoded.len() as int)) {
            None => None,
            Some(blob) => if blob.len() < NONCE_LEN {
                None
            } else {
                match opened(key, blob.subrange(0, 12), blob.subrange(12, blob.len() as int)) {
                    None => None,
                    Some(plain) => utf8_text(plain),
                }
            },
        }
    }
}

/// Decrypts a stored secret; a malformed or forged one is refused.
pub fn decrypt(encoded: &str, key: &[u8; 32]) -> (r: Result<String, String>)
    ensures
        r matches Ok(s) ==> decryption(encoded@, key@) == Some(s@),
        r is Err ==> decryption(encoded@, key@) is None,
{
    let v = chars_of(encoded);
    if v.len() == 0 {
        return Ok(String::new());
    }
    if !(v.len() >= 4 && v[0] == 'e' && v[1] == 'n' && v[2] == 'c' && v[3] == ':') {
        assert(!(v@.len() >= 4 && v@.subrange(0, 4) == enc_prefix())) by {
            if v@.len() >= 4 && v@.subrange(0, 4) == enc_prefix() {
                assert(v@.subrange(0, 4)[0] == 'e');
                assert(v@.subrange(0, 4)[1] == 'n');
                assert(v@.subrange(0, 4)[2] == 'c');
                assert(v@.subrange(0, 4)[3] == ':');
            }
        }
        return Ok(String::from_str(encoded));
    }
    assert(v@.subrange(0, 4) =~= enc_prefix());
    let body = string_of(&v, 4, v.len());
    let blob = match decode_base64(body.as_str()) {
        Ok(b) => b,
        Err(e) => return Err(join_str("Decoding failed: ", e.as_str())),
    };
    if blob.len() < NONCE_LEN {
        return Err(String::from_str("Data too short"));
    }
    let mut nonce = [0u8; 12];
    let mut i: usize = 0;
    while i < NONCE_LEN
        invariant
            0 <= i <= NONCE_LEN <= blob@.len(),
            nonce@.len() == NONCE_LEN,
            forall|j: int| 0 <= j < i ==> nonce@[j] == blob@[j],
        decreases NONCE_LEN - i,
    {
        nonce[i] = blob[i];
        i = i + 1;
    }
    assert(nonce@ =~= blob@.subrange(0, 12));
    let mut ciphertext: Vec<u8> = Vec::new();
    let mut j: usize = NONCE_LEN;
    while j < blob.len()
        invariant
            NONCE_LEN <= j <= blob@.len(),
            ciphertext@ == blob@.subrange(12, j as int),
        decreases blob@.len() - j,
    {
        ciphertext.push(blob[j]);
        assert(blob@.subrange(12, j + 1) =~= blob@.subrange(12, j as int).push(blob@[j as int]));
        j = j + 1;
    }
    let plain = match open(key, &nonce, ciphertext.as_slice()) {
        Ok(p) => p,
        Err(e) => return Err(join_str("Decryption failed: ", e.as_str())),
    };
    match utf8_string(plain) {
        Ok(s) => Ok(s),
        Err(e) => Err(join_str("Invalid UTF-8: ", e.as_str())),
    }
}

pub open spec fn opt_chars(o: Option<String>) -> Option<Seq<char>> {
    match o {
        Some(s) => Some(s@),
        None => None,
    }
}

/// `out` is what storing `value` under `key` gives: a non-empty value is
/// encrypted when there is a key; anything else is stored as it is.
pub open spec fn stored_field(out: Option<String>, value: Option<String>, key: Option<Seq<u8>>) -> bool {
    match (value, key) {
        (Some(v), Some(k)) => if v@.len() > 0 {
            out matches Some(o) && is_encryption(o@, k, v@)
        } else {
            opt_chars(out) == opt_chars(value)
        },
        _ => opt_chars(out) == opt_chars(value),
    }
}

/// `out` is what storing `value` under `key` gives on an update, where an
/// absent or empty new value keeps the stored one, `existing`.
pub open spec fn stored_field_with_fallback(
    out: Option<String>,
    value: Option<String>,
    existing: Option<String>,
    key: Option<Seq<u8>>,
) -> bool {
    if value is Some && value->0@.len() > 0 {
        stored_field(out, value, key)
    } else {
        match (existing, key) {
            (Some(e), Some(k)) => out matches Some(o) && is_encryption(o@, k, e@),
            (Some(e), None) => out matches Some(o) && o@ == e@,
            (None, _) => out is None,
        }
    }
}

pub open spec fn key_view(key: Option<&[u8; 32]>) -> Option<Seq<u8>> {
    match key {
        Some(k) => Some(k@),
        None => None,
    }
}

fn store_field(value: &Option<String>, key: Option<&[u8; 32]>) -> (r: Result<Option<String>, String>)
    ensures
        r matches Ok(out) ==> stored_field(out, *value, key_view(key)),
        r is Err ==> value is Some && key is Some && value->0@.len() > 0,
{
    match (value, key) {
        (Some(v), Some(k)) => {
            if v.as_str().unicode_len() > 0 {
                let enc = encrypt(v.as_str(), k)?;
                Ok(Some(enc))
            } else {
                Ok(Some(v.clone()))
            }
        },
        (Some(v), None) => Ok(Some(v.clone())),
        (None, _) => Ok(None),
    }
}

/// The password and key path of `host` as they are stored: encrypted under
/// `key` when there is one and the field is not empty.
pub fn encrypt_fields(host: &Host, key: Option<&[u8; 32]>) -> (r: Result<(Option<String>, Option<String>), String>)
    ensures
        r matches Ok((p, k)) ==> stored_field(p, host.password, key_view(key))
            && stored_field(k, host.key_path, key_view(key)),
        r is Err ==> key is Some,
{
    let password = store_field(&host.password, key)?;
    let key_path = store_field(&host.key_path, key)?;
    Ok((password, key_path))
}

fn store_field_with_fallback(
    value: &Option<String>,
    existing: &Option<String>,
    key: Option<&[u8; 32]>,
) -> (r: Result<Option<String>, String>)
    ensures
        r matches Ok(out) ==> stored_field_with_fallback(out, *value, *existing, key_view(key)),
        r is Err ==> key is Some,
{
    let fresh = match value {
        Some(v) => v.as_str().unicode_len() > 0,
        None => false,
    };
    if fresh {
        return store_field(value, key);
    }
    match (existing, key) {
        (Some(e), Some(k)) => {
            let enc = encrypt(e.as_str(), k)?;
            Ok(Some(enc))
        },
        (Some(e), None) => Ok(Some(e.clone())),
        (None, _) => Ok(None),
    }
}

/// Like `encrypt_fields`, for an update of the stored host `existing`: a
/// field left absent or empty keeps the stored value, encrypted afresh.
pub fn encrypt_fields_with_fallback(
    host: &Host,
    existing: &Host,
    key: Option<&[u8; 32]>,
) -> (r: Result<(Option<String>, Option<String>), String>)
    ensures
        r matches Ok((p, k)) ==> stored_field_with_fallback(p, host.password, existing.password, key_view(key))
            && stored_field_with_fallback(k, host.key_path, existing.key_path, key_view(key)),
        r is Err ==> key is Some,
{
    let password = store_field_with_fallback(&host.password, &existing.password, key)?;
    let key_path = store_field_with_fallback(&host.key_path, &existing.key_path, key)?;
    Ok((password, key_path))
}

} // verus!
