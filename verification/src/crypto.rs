//! Encryption of stored secrets, key names and API keys.
//!
//! A secret is sealed with AES-256-GCM under a fresh nonce and stored as the
//! base64 text of nonce and ciphertext. Without an encryption key it is stored
//! as it is.

use aes_gcm::aead::{Aead, KeyInit};
use aes_gcm::{Aes256Gcm, Nonce};
use base64::engine::general_purpose;
use base64::Engine;
use rand::Rng;
use sha2::{Digest, Sha256};
use vstd::prelude::*;
use vstd::utf8::{decode_utf8, encode_utf8, is_ascii_chars, valid_utf8};
use crate::errors::DbError;
use crate::text::{decimal, decimal_text, hex_digit, same_text};

verus! {

broadcast use vstd::utf8::group_utf8_lib;

/// The padded base64 text of bytes, in the standard alphabet.
pub uninterp spec fn base64_text(bytes: Seq<u8>) -> Seq<char>;

/// What padded base64 text in the standard alphabet stands for, or why it
/// stands for nothing.
pub uninterp spec fn base64_decoded(text: Seq<char>) -> Result<Seq<u8>, Seq<char>>;

/// The unpadded base64 text of bytes, in the URL-safe alphabet.
pub uninterp spec fn base64url_text(bytes: Seq<u8>) -> Seq<char>;

/// The AES-256-GCM ciphertext and tag of a plaintext, if it can be sealed.
pub uninterp spec fn sealed(key: Seq<u8>, nonce: Seq<u8>, plaintext: Seq<u8>) -> Option<Seq<u8>>;

/// The plaintext of an AES-256-GCM ciphertext and tag, if they belong together.
pub uninterp spec fn opened(key: Seq<u8>, nonce: Seq<u8>, ciphertext: Seq<u8>) -> Option<Seq<u8>>;

/// The SHA-256 digest of bytes.
pub uninterp spec fn sha256(data: Seq<u8>) -> Seq<u8>;

/// What `std::string::FromUtf8Error` says of bytes that are not UTF-8.
pub uninterp spec fn utf8_error(bytes: Seq<u8>) -> Seq<char>;

/// The model of a call that gave bytes.
pub open spec fn ok_bytes(bytes: Seq<u8>) -> Result<Seq<u8>, Seq<char>> {
    Ok(bytes)
}

/// The model of a call that failed with words.
pub open spec fn err_words(words: Seq<char>) -> Result<Seq<u8>, Seq<char>> {
    Err(words)
}

/// The longest plaintext that the cipher does not refuse.
pub open spec fn longest_plaintext() -> int {
    0x10_0000_0000
}

/// Whether a character is in the URL-safe base64 alphabet.
pub open spec fn is_base64url_char(c: char) -> bool {
    'a' <= c <= 'z' || 'A' <= c <= 'Z' || '0' <= c <= '9' || c == '-' || c == '_'
}

/// Two lower-case hexadecimal digits per byte.
pub open spec fn hex_text(bytes: Seq<u8>) -> Seq<char> {
    Seq::new(
        2 * bytes.len(),
        |i: int|
            if i % 2 == 0 {
                hex_digit(bytes[i / 2] as int / 16)
            } else {
                hex_digit(bytes[i / 2] as int % 16)
            },
    )
}

/// Calls `base64::Engine::encode` of `general_purpose::STANDARD`: the base64
/// text, four ASCII characters for every three bytes begun, which decodes to the
/// same bytes.
#[verifier::external_body]
fn base64_encode(bytes: &[u8]) -> (r: String)
    ensures
        r@ == base64_text(bytes@),
        r@.len() == 4 * ((bytes@.len() + 2) / 3),
        is_ascii_chars(r@),
        base64_decoded(r@) == ok_bytes(bytes@),
{
    general_purpose::STANDARD.encode(bytes)
}

/// Calls `base64::Engine::decode` of `general_purpose::STANDARD`: the bytes that
/// the text stands for, at most three for every four bytes of text, or the
/// `base64::DecodeError` in words. No text at all stands for no bytes.
#[verifier::external_body]
fn base64_decode(text: &str) -> (r: Result<Vec<u8>, String>)
    ensures
        match r {
            Ok(v) => base64_decoded(text@) == ok_bytes(v@) && 4 * v@.len()
                <= 3 * encode_utf8(text@).len(),
            Err(e) => base64_decoded(text@) == err_words(e@),
        },
        text@.len() == 0 ==> r is Ok,
{
    general_purpose::STANDARD.decode(text).map_err(|e| e.to_string())
}

/// Calls `base64::Engine::encode` of `general_purpose::URL_SAFE_NO_PAD`: the
/// base64 text, one character for every six bits begun, all in the URL-safe
/// alphabet.
#[verifier::external_body]
fn base64url_encode(bytes: &[u8]) -> (r: String)
    ensures
        r@ == base64url_text(bytes@),
        r@.len() == (4 * bytes@.len() + 2) / 3,
        forall|i: int| 0 <= i < r@.len() ==> is_base64url_char(#[trigger] r@[i]),
{
    general_purpose::URL_SAFE_NO_PAD.encode(bytes)
}

/// Calls `aes_gcm::Aes256Gcm::new_from_slice` and `aead::Aead::encrypt` without
/// associated data: a ciphertext with a tag of sixteen bytes that opens under
/// the same key and nonce, or nothing for a plaintext that is too long. No other
/// length is stopped: what `cipher::StreamCipherCore` holds against the blocks
/// that its counter has left is the length modulo the block size.
#[verifier::external_body]
fn seal(key: &[u8], nonce: &[u8], plaintext: &[u8]) -> (r: Option<Vec<u8>>)
    requires
        key@.len() == 32,
        nonce@.len() == 12,
    ensures
        match r {
            Some(c) => sealed(key@, nonce@, plaintext@) == Some(c@) && c@.len() == plaintext@.len()
                + 16 && opened(key@, nonce@, c@) == Some(plaintext@),
            None => sealed(key@, nonce@, plaintext@) is None,
        },
        r is Some <==> plaintext@.len() <= longest_plaintext(),
{
    let cipher = Aes256Gcm::new_from_slice(key).ok()?;
    cipher.encrypt(Nonce::from_slice(nonce), plaintext).ok()
}

/// Calls `aes_gcm::Aes256Gcm::new_from_slice` and `aead::Aead::decrypt` without
/// associated data: the plaintext, sixteen bytes shorter, or nothing where the
/// tag does not belong to key, nonce and ciphertext, or is not all there, or the
/// ciphertext is too long.
#[verifier::external_body]
fn open(key: &[u8], nonce: &[u8], ciphertext: &[u8]) -> (r: Option<Vec<u8>>)
    requires
        key@.len() == 32,
        nonce@.len() == 12,
    ensures
        match r {
            Some(p) => opened(key@, nonce@, ciphertext@) == Some(p@) && p@.len() + 16
                == ciphertext@.len(),
            None => opened(key@, nonce@, ciphertext@) is None,
        },
{
    let cipher = Aes256Gcm::new_from_slice(key).ok()?;
    cipher.decrypt(Nonce::from_slice(nonce), ciphertext).ok()
}

/// Calls `sha2::Sha256::digest`: a digest of thirty-two bytes.
#[verifier::external_body]
fn sha256_digest(data: &[u8]) -> (r: Vec<u8>)
    ensures
        r@ == sha256(data@),
        r@.len() == 32,
{
    Sha256::digest(data).to_vec()
}

/// Calls `hex::encode`: two lower-case digits per byte.
#[verifier::external_body]
fn hex_encode(data: &[u8]) -> (r: String)
    ensures
        r@ == hex_text(data@),
{
    hex::encode(data)
}

/// Calls `rand::Rng::fill` of `rand::thread_rng`: that many random bytes, of
/// which nothing else is known.
#[verifier::external_body]
fn random_bytes(n: usize) -> (r: Vec<u8>)
    ensures
        r@.len() == n,
{
    let mut bytes = vec![0u8; n];
    rand::thread_rng().fill(&mut bytes[..]);
    bytes
}

/// Calls `String::from_utf8`: the characters of bytes in UTF-8, or the
/// `FromUtf8Error` in words.
#[verifier::external_body]
fn from_utf8(bytes: Vec<u8>) -> (r: Result<String, String>)
    ensures
        match r {
            Ok(s) => valid_utf8(bytes@) && s@ == decode_utf8(bytes@),
            Err(e) => !valid_utf8(bytes@) && e@ == utf8_error(bytes@),
        },
{
    String::from_utf8(bytes).map_err(|e| e.to_string())
}

/// Whether a result is the error with these words.
pub open spec fn fails_with<T>(r: Result<T, DbError>, words: Seq<char>) -> bool {
    r matches Err(DbError::Other(s)) && s@ == words
}

fn failure<T>(prefix: &str, rest: &str) -> (r: Result<T, DbError>)
    ensures
        fails_with(r, prefix@ + rest@),
{
    Err(DbError::Other(prefix.to_owned().concat(rest)))
}

/// The API key that stands for key material.
pub fn format_api_key(key_bytes: &[u8]) -> (r: String)
    ensures
        r@ == "sk-"@ + base64url_text(key_bytes@),
        r@.len() == 3 + (4 * key_bytes@.len() + 2) / 3,
        forall|i: int| 3 <= i < r@.len() ==> is_base64url_char(#[trigger] r@[i]),
{
    proof {
        reveal_strlit("sk-");
    }
    "sk-".to_owned().concat(base64url_encode(key_bytes).as_str())
}

/// A new API key with 256 bits of entropy: `sk-` and 43 characters of the
/// URL-safe alphabet, without padding.
pub fn generate_api_key() -> (r: String)
    ensures
        r@.len() == 46,
        r@.subrange(0, 3) == "sk-"@,
        forall|i: int| 3 <= i < r@.len() ==> is_base64url_char(#[trigger] r@[i]),
        exists|key_bytes: Seq<u8>|
            key_bytes.len() == 32 && r@ == "sk-"@ + #[trigger] base64url_text(key_bytes),
{
    proof {
        reveal_strlit("sk-");
    }
    let key_bytes = random_bytes(32);
    let r = format_api_key(key_bytes.as_slice());
    assert(r@.subrange(0, 3) =~= "sk-"@);
    r
}

/// The key material that a decoded encryption key gives, or what is wrong with
/// it.
pub open spec fn key_of_decoded(decoded: Result<Seq<u8>, Seq<char>>) -> Result<
    Seq<u8>,
    Seq<char>,
> {
    match decoded {
        Ok(bytes) => if bytes.len() == 32 {
            Ok(bytes)
        } else {
            Err(
                "Encryption key must be 32 bytes (256 bits), got "@ + decimal(bytes.len() as int)
                    + " bytes"@,
            )
        },
        Err(e) => Err("Failed to decode encryption key: "@ + e),
    }
}

/// The key material of a base64 encryption key, or what is wrong with it.
pub open spec fn key_material(key: Seq<char>) -> Result<Seq<u8>, Seq<char>> {
    key_of_decoded(base64_decoded(key))
}

/// The views of a result of bytes.
pub open spec fn bytes_or_words(r: Result<Vec<u8>, String>) -> Result<Seq<u8>, Seq<char>> {
    match r {
        Ok(v) => Ok(v@),
        Err(e) => Err(e@),
    }
}

/// Whether a result of bytes is what a model says.
pub open spec fn is_bytes_result(r: Result<Vec<u8>, DbError>, m: Result<Seq<u8>, Seq<char>>) -> bool {
    match m {
        Ok(bytes) => r matches Ok(v) && v@ == bytes,
        Err(words) => fails_with(r, words),
    }
}

/// Checks decoded key material: thirty-two bytes, or an error.
pub fn check_key(decoded: Result<Vec<u8>, String>) -> (r: Result<Vec<u8>, DbError>)
    ensures
        is_bytes_result(r, key_of_decoded(bytes_or_words(decoded))),
{
    match decoded {
        Ok(bytes) => {
            if bytes.len() != 32 {
                Err(
                    DbError::Other(
                        "Encryption key must be 32 bytes (256 bits), got ".to_owned().concat(
                            decimal_text(bytes.len() as u128).as_str(),
                        ).concat(" bytes"),
                    ),
                )
            } else {
                Ok(bytes)
            }
        },
        Err(e) => failure("Failed to decode encryption key: ", e.as_str()),
    }
}

/// What is wrong with a key of no characters where a key is needed.
pub open spec fn empty_key_error() -> Seq<char> {
    "Encryption key must be 32 bytes (256 bits), got "@ + decimal(0) + " bytes"@
}

/// The key material of a base64 encryption key. An empty key has none.
pub fn decode_key(key: &str) -> (r: Result<Vec<u8>, DbError>)
    ensures
        is_bytes_result(r, key_material(key@)),
        key@.len() == 0 ==> key_material(key@) == err_words(empty_key_error()),
{
    check_key(base64_decode(key))
}

fn concat_bytes(front: &[u8], back: &[u8]) -> (r: Vec<u8>)
    ensures
        r@ == front@ + back@,
{
    let mut out: Vec<u8> = Vec::new();
    out.extend_from_slice(front);
    assert(out@ =~= front@);
    out.extend_from_slice(back);
    assert(out@ =~= front@ + back@);
    out
}

/// Puts a nonce in front of a ciphertext.
pub fn join_envelope(nonce: &[u8], ciphertext: &[u8]) -> (r: Vec<u8>)
    ensures
        r@ == nonce@ + ciphertext@,
{
    concat_bytes(nonce, ciphertext)
}

/// Takes an envelope apart into its nonce of twelve bytes and its ciphertext;
/// a shorter one is an error.
pub fn split_envelope(data: &[u8]) -> (r: Result<(&[u8], &[u8]), DbError>)
    ensures
        data@.len() >= 12 ==> (r matches Ok((nonce, ciphertext)) && nonce@ == data@.take(12)
            && ciphertext@ == data@.skip(12)),
        data@.len() < 12 ==> fails_with(r, "Encrypted data too short"@),
{
    if data.len() < 12 {
        Err(DbError::Other("Encrypted data too short".to_owned()))
    } else {
        Ok(data.split_at(12))
    }
}

/// Whether a text stores a plaintext sealed under a nonce: it is the base64 text
/// of nonce and ciphertext, decodes to them, and the ciphertext opens to the
/// plaintext.
pub open spec fn is_sealed_text(
    material: Seq<u8>,
    nonce: Seq<u8>,
    plaintext: Seq<u8>,
    text: Seq<char>,
) -> bool {
    &&& nonce.len() == 12
    &&& sealed(material, nonce, plaintext) matches Some(ciphertext)
    &&& ciphertext.len() == plaintext.len() + 16
    &&& opened(material, nonce, ciphertext) == Some(plaintext)
    &&& text == base64_text(nonce + ciphertext)
    &&& base64_decoded(text) == ok_bytes(nonce + ciphertext)
}

/// The plaintext of stored text under an optional key, or why there is none.
pub open spec fn unsealed(key: Option<Seq<char>>, text: Seq<char>) -> Result<Seq<u8>, Seq<char>> {
    match key {
        None => Ok(encode_utf8(text)),
        Some(k) => match key_material(k) {
            Err(words) => Err(words),
            Ok(material) => match base64_decoded(text) {
                Err(e) => Err("Failed to decode encrypted data: "@ + e),
                Ok(data) => if data.len() < 12 {
                    Err("Encrypted data too short"@)
                } else {
                    match opened(material, data.take(12), data.skip(12)) {
                        Some(plaintext) => Ok(plaintext),
                        None => Err("Decryption failed: aead::Error"@),
                    }
                },
            },
        },
    }
}

/// Whether a text is what storing a plaintext under an optional key can give:
/// the plaintext itself without a key, and else the plaintext sealed under some
/// nonce.
pub open spec fn stores(key: Option<Seq<char>>, plaintext: Seq<u8>, text: Seq<char>) -> bool {
    match key {
        None => valid_utf8(plaintext) && text == decode_utf8(plaintext),
        Some(k) => key_material(k) matches Ok(material) && exists|nonce: Seq<u8>| #[trigger]
            is_sealed_text(material, nonce, plaintext, text),
    }
}

/// Why a plaintext cannot be stored under an optional key, if it cannot.
pub open spec fn storing_error(key: Option<Seq<char>>, plaintext: Seq<u8>) -> Option<Seq<char>> {
    match key {
        None => if valid_utf8(plaintext) {
            None
        } else {
            Some("Plaintext is not valid UTF-8: "@ + utf8_error(plaintext))
        },
        Some(k) => match key_material(k) {
            Err(words) => Some(words),
            Ok(material) => if plaintext.len() <= longest_plaintext() {
                None
            } else {
                Some("Encryption failed: aead::Error"@)
            },
        },
    }
}

/// Whether a result is that of storing a plaintext under an optional key.
pub open spec fn is_storing(
    r: Result<String, DbError>,
    key: Option<Seq<char>>,
    plaintext: Seq<u8>,
) -> bool {
    match storing_error(key, plaintext) {
        Some(words) => fails_with(r, words),
        None => r matches Ok(text) && stores(key, plaintext, text@),
    }
}

/// The view of an optional encryption key.
pub open spec fn key_view(key: Option<&str>) -> Option<Seq<char>> {
    match key {
        Some(k) => Some(k@),
        None => None,
    }
}

/// The key that is used where an empty key means that there is none.
pub open spec fn key_in_use(key: Option<Seq<char>>) -> Option<Seq<char>> {
    match key {
        Some(k) => if k.len() == 0 {
            None
        } else {
            Some(k)
        },
        None => None,
    }
}

/// The plaintext of stored text, or why there is none. With an empty key, or
/// none, it is the text's own bytes.
pub open spec fn decrypted(key: Option<Seq<char>>, text: Seq<char>) -> Result<Seq<u8>, Seq<char>> {
    unsealed(key_in_use(key), text)
}

/// What [`encrypt_with_key`] gives for a plaintext. With an empty key, or none,
/// it is the plaintext's own text.
pub open spec fn is_encryption(
    r: Result<String, DbError>,
    key: Option<Seq<char>>,
    plaintext: Seq<u8>,
) -> bool {
    is_storing(r, key_in_use(key), plaintext)
}

fn used_key<'a>(encryption_key: Option<&'a str>) -> (r: Option<&'a str>)
    ensures
        key_view(r) == key_in_use(key_view(encryption_key)),
{
    proof {
        reveal_strlit("");
    }
    match encryption_key {
        Some(key) => if same_text(key, "") {
            None
        } else {
            assert(key@.len() == 0 ==> key@ =~= ""@);
            Some(key)
        },
        None => None,
    }
}

/// Seals a plaintext under a key and a nonce. What comes out holds the nonce in
/// front of the ciphertext, and opens under the same key to the same plaintext;
/// only an overlong plaintext fails.
pub fn encrypt_with_nonce(key: &str, nonce: &[u8], plaintext: &[u8]) -> (r: Result<
    String,
    DbError,
>)
    requires
        nonce@.len() == 12,
    ensures
        match key_material(key@) {
            Err(words) => fails_with(r, words),
            Ok(material) => if plaintext@.len() <= longest_plaintext() {
                r matches Ok(text) && is_sealed_text(material, nonce@, plaintext@, text@)
                    && unsealed(Some(key@), text@) == ok_bytes(plaintext@)
            } else {
                fails_with(r, "Encryption failed: aead::Error"@)
            },
        },
        key@.len() == 0 ==> fails_with(r, empty_key_error()),
{
    let material = match decode_key(key) {
        Ok(material) => material,
        Err(e) => {
            return Err(e);
        },
    };
    match seal(material.as_slice(), nonce, plaintext) {
        Some(ciphertext) => {
            let data = join_envelope(nonce, ciphertext.as_slice());
            assert(data@.take(12) =~= nonce@);
            assert(data@.skip(12) =~= ciphertext@);
            Ok(base64_encode(data.as_slice()))
        },
        None => Err(DbError::Other("Encryption failed: aead::Error".to_owned())),
    }
}

fn store(key: Option<&str>, plaintext: &[u8]) -> (r: Result<String, DbError>)
    ensures
        is_storing(r, key_view(key), plaintext@),
        r matches Ok(text) ==> unsealed(key_view(key), text@) == ok_bytes(plaintext@),
        key matches Some(k) ==> k@.len() == 0 ==> fails_with(r, empty_key_error()),
{
    match key {
        None => {
            let mut copy: Vec<u8> = Vec::new();
            copy.extend_from_slice(plaintext);
            assert(copy@ =~= plaintext@);
            match from_utf8(copy) {
                Ok(text) => Ok(text),
                Err(e) => failure("Plaintext is not valid UTF-8: ", e.as_str()),
            }
        },
        Some(key) => {
            let nonce = random_bytes(12);
            encrypt_with_nonce(key, nonce.as_slice(), plaintext)
        },
    }
}

fn unseal(key: Option<&str>, text: &str) -> (r: Result<Vec<u8>, DbError>)
    ensures
        is_bytes_result(r, unsealed(key_view(key), text@)),
        key matches Some(k) ==> k@.len() == 0 ==> fails_with(r, empty_key_error()),
{
    let key = match key {
        None => {
            let mut copy: Vec<u8> = Vec::new();
            copy.extend_from_slice(text.as_bytes());
            assert(copy@ =~= encode_utf8(text@));
            return Ok(copy);
        },
        Some(key) => key,
    };
    let material = match decode_key(key) {
        Ok(material) => material,
        Err(e) => {
            return Err(e);
        },
    };
    let data = match base64_decode(text) {
        Ok(data) => data,
        Err(e) => {
            return failure("Failed to decode encrypted data: ", e.as_str());
        },
    };
    let (nonce, ciphertext) = match split_envelope(data.as_slice()) {
        Ok(parts) => parts,
        Err(e) => {
            return Err(e);
        },
    };
    match open(material.as_slice(), nonce, ciphertext) {
        Some(plaintext) => Ok(plaintext),
        None => Err(DbError::Other("Decryption failed: aead::Error".to_owned())),
    }
}

/// Encrypts a plaintext under a base64 key of thirty-two bytes and a fresh
/// nonce. With an empty key, or none, text is kept as it is, and anything else
/// is an error.
///
/// Whatever the nonce, the stored text decrypts to the plaintext under the same
/// key.
pub fn encrypt_with_key(encryption_key: Option<&str>, plaintext: &[u8]) -> (r: Result<
    String,
    DbError,
>)
    ensures
        is_encryption(r, key_view(encryption_key), plaintext@),
        r matches Ok(text) ==> decrypted(key_view(encryption_key), text@) == ok_bytes(plaintext@),
{
    store(used_key(encryption_key), plaintext)
}

/// Decrypts what [`encrypt_with_key`] made. With an empty key, or none, the
/// text's own bytes come back.
pub fn decrypt_with_key(encryption_key: Option<&str>, encrypted_b64: &str) -> (r: Result<
    Vec<u8>,
    DbError,
>)
    ensures
        is_bytes_result(r, decrypted(key_view(encryption_key), encrypted_b64@)),
{
    unseal(used_key(encryption_key), encrypted_b64)
}

/// Key material over a whole block of the digest, each byte combined with `byte`.
pub open spec fn padded_key(key: Seq<u8>, byte: u8) -> Seq<u8> {
    Seq::new(
        64,
        |i: int|
            if i < key.len() {
                key[i] ^ byte
            } else {
                byte
            },
    )
}

/// The HMAC-SHA256 of data under key material of at most a block.
pub open spec fn hmac_sha256(key: Seq<u8>, data: Seq<u8>) -> Seq<u8> {
    sha256(padded_key(key, 0x5c) + sha256(padded_key(key, 0x36) + data))
}

fn pad_key(key: &[u8], byte: u8) -> (r: Vec<u8>)
    requires
        key@.len() <= 64,
    ensures
        r@ == padded_key(key@, byte),
{
    let mut block: Vec<u8> = Vec::new();
    let mut i: usize = 0;
    while i < 64
        invariant
            i <= 64,
            key@.len() <= 64,
            block@ == padded_key(key@, byte).take(i as int),
        decreases 64 - i,
    {
        if i < key.len() {
            block.push(key[i] ^ byte);
        } else {
            block.push(byte);
        }
        i = i + 1;
        assert(block@ =~= padded_key(key@, byte).take(i as int));
    }
    assert(block@ =~= padded_key(key@, byte));
    block
}

/// The HMAC-SHA256 of data under key material of at most a block.
pub fn hmac_digest(key: &[u8], data: &[u8]) -> (r: Vec<u8>)
    requires
        key@.len() <= 64,
    ensures
        r@ == hmac_sha256(key@, data@),
        r@.len() == 32,
{
    let inner = sha256_digest(concat_bytes(pad_key(key, 0x36).as_slice(), data).as_slice());
    sha256_digest(concat_bytes(pad_key(key, 0x5c).as_slice(), inner.as_slice()).as_slice())
}

/// The name under which a key is stored, or what is wrong with the encryption
/// key.
pub open spec fn hashed_name(key: Option<Seq<char>>, key_name: Seq<char>) -> Result<
    Seq<char>,
    Seq<char>,
> {
    match key {
        None => Ok(key_name),
        Some(k) => match key_material(k) {
            Err(words) => Err(words),
            Ok(material) => Ok("enc_"@ + hex_text(hmac_sha256(material, encode_utf8(key_name)))),
        },
    }
}

/// The name under which a key is stored: `enc_` and the HMAC-SHA256 of the name
/// under the key material, in hexadecimal. Without an encryption key it is the
/// name itself.
pub fn hash_key_name(encryption_key: Option<&str>, key_name: &str) -> (r: Result<String, DbError>)
    ensures
        match hashed_name(key_view(encryption_key), key_name@) {
            Ok(name) => r matches Ok(s) && s@ == name,
            Err(words) => fails_with(r, words),
        },
        encryption_key is Some ==> (r matches Ok(s) ==> s@.len() == 68 && s@.subrange(0, 4)
            == "enc_"@),
{
    let key = match encryption_key {
        None => {
            return Ok(key_name.to_owned());
        },
        Some(key) => key,
    };
    let material = match decode_key(key) {
        Ok(material) => material,
        Err(e) => {
            return Err(e);
        },
    };
    let digest = hmac_digest(material.as_slice(), key_name.as_bytes());
    let r = "enc_".to_owned().concat(hex_encode(digest.as_slice()).as_str());
    proof {
        reveal_strlit("enc_");
        assert(r@.subrange(0, 4) =~= "enc_"@);
    }
    Ok(r)
}

/// The query that reads a column's values to encrypt, with their identifiers.
pub fn column_select_query(table: &str, id_column: &str, value_column: &str) -> (r: String)
    ensures
        r@ == "SELECT "@ + id_column@ + ", "@ + value_column@ + " FROM "@ + table@ + " WHERE "@
            + value_column@ + " IS NOT NULL"@,
{
    "SELECT ".to_owned().concat(id_column).concat(", ").concat(value_column).concat(" FROM ").concat(
        table,
    ).concat(" WHERE ").concat(value_column).concat(" IS NOT NULL")
}

/// The query that writes one encrypted value back.
pub fn column_update_query(table: &str, id_column: &str, value_column: &str) -> (r: String)
    ensures
        r@ == "UPDATE "@ + table@ + " SET "@ + value_column@ + " = $1 WHERE "@ + id_column@
            + " = $2"@,
{
    "UPDATE ".to_owned().concat(table).concat(" SET ").concat(value_column).concat(
        " = $1 WHERE ",
    ).concat(id_column).concat(" = $2")
}

/// A text that was encrypted when it was made, or came encrypted from the
/// database.
#[derive(Debug, Clone, PartialEq, Eq)]
pub struct EncryptedString(String);

impl View for EncryptedString {
    type V = Seq<char>;

    closed spec fn view(&self) -> Seq<char> {
        self.0@
    }
}

impl EncryptedString {
    /// Encrypts a text under an optional key. A key that is given has to be a
    /// whole one: an empty key is an error.
    pub fn new(plaintext: &str, encryption_key: Option<&str>) -> (r: Result<Self, DbError>)
        ensures
            match storing_error(key_view(encryption_key), encode_utf8(plaintext@)) {
                Some(words) => fails_with(r, words),
                None => r matches Ok(e) && stores(
                    key_view(encryption_key),
                    encode_utf8(plaintext@),
                    e@,
                ),
            },
            r matches Ok(e) ==> unsealed(key_view(encryption_key), e@) == ok_bytes(
                encode_utf8(plaintext@),
            ),
            encryption_key is None ==> (r matches Ok(e) && e@ == plaintext@),
            encryption_key matches Some(k) ==> k@.len() == 0 ==> fails_with(r, empty_key_error()),
    {
        match store(encryption_key, plaintext.as_bytes()) {
            Ok(text) => Ok(EncryptedString(text)),
            Err(e) => Err(e),
        }
    }

    /// The stored text.
    pub fn as_str(&self) -> (r: &str)
        ensures
            r@ == self@,
    {
        self.0.as_str()
    }

    /// The stored text.
    pub fn as_ref(&self) -> (r: &str)
        ensures
            r@ == self@,
    {
        self.0.as_str()
    }

    /// Decrypts the stored text under an optional key. A key that is given has to
    /// be a whole one: an empty key is an error.
    pub fn decrypt(&self, encryption_key: Option<&str>) -> (r: Result<String, DbError>)
        ensures
            match unsealed(key_view(encryption_key), self@) {
                Err(words) => fails_with(r, words),
                Ok(bytes) => if valid_utf8(bytes) {
                    r matches Ok(text) && text@ == decode_utf8(bytes)
                } else {
                    fails_with(r, "Decrypted data is not valid UTF-8: "@ + utf8_error(bytes))
                },
            },
            encryption_key matches Some(k) ==> k@.len() == 0 ==> fails_with(r, empty_key_error()),
    {
        match unseal(encryption_key, self.0.as_str()) {
            Ok(bytes) => match from_utf8(bytes) {
                Ok(text) => Ok(text),
                Err(e) => failure("Decrypted data is not valid UTF-8: ", e.as_str()),
            },
            Err(e) => Err(e),
        }
    }
}

impl vstd::std_specs::convert::FromSpecImpl<EncryptedString> for String {
    open spec fn obeys_from_spec() -> bool {
        true
    }

    closed spec fn from_spec(encrypted: EncryptedString) -> String {
        encrypted.0
    }
}

impl From<EncryptedString> for String {
    /// The stored text.
    fn from(encrypted: EncryptedString) -> (r: String)
        ensures
            r@ == encrypted@,
    {
        encrypted.0
    }
}

impl vstd::std_specs::convert::FromSpecImpl<String> for EncryptedString {
    open spec fn obeys_from_spec() -> bool {
        true
    }

    closed spec fn from_spec(encrypted: String) -> EncryptedString {
        EncryptedString(encrypted)
    }
}

impl From<String> for EncryptedString {
    /// Wraps a text that is encrypted already.
    fn from(encrypted: String) -> (r: EncryptedString)
        ensures
            r@ == encrypted@,
    {
        EncryptedString(encrypted)
    }
}

proof fn lemma_stored_unseals(key: Option<Seq<char>>, plaintext: Seq<u8>, text: Seq<char>)
    requires
        stores(key, plaintext, text),
    ensures
        unsealed(key, text) == ok_bytes(plaintext),
{
    if let Some(k) = key {
        let material = key_material(k)->Ok_0;
        let nonce = choose|nonce: Seq<u8>| #[trigger]
            is_sealed_text(material, nonce, plaintext, text);
        law_envelope_splits_where_it_was_joined(nonce, sealed(material, nonce, plaintext)->0);
    }
}

/// Whatever [`encrypt_with_key`] stores for bytes under a key, or under none,
/// [`decrypt_with_key`] gives back as those bytes.
pub proof fn law_encrypted_bytes_read_back(
    key: Option<Seq<char>>,
    plaintext: Seq<u8>,
    stored: String,
)
    requires
        is_encryption(Ok(stored), key, plaintext),
    ensures
        decrypted(key, stored@) == ok_bytes(plaintext),
{
    lemma_stored_unseals(key_in_use(key), plaintext, stored@);
}

/// An empty key is as no key: any text is its own bytes when it is decrypted,
/// and the same comes out when bytes are encrypted.
pub proof fn law_empty_key_is_no_key(text: Seq<char>, plaintext: Seq<u8>, r: Result<String, DbError>)
    ensures
        decrypted(None, text) == ok_bytes(encode_utf8(text)),
        decrypted(Some(Seq::empty()), text) == ok_bytes(encode_utf8(text)),
        is_encryption(r, Some(Seq::empty()), plaintext) <==> is_encryption(r, None, plaintext),
{
}

/// What [`EncryptedString::new`] stores for a text under a key, or under none,
/// decrypts to that text under the same key, also after it went to the database
/// as a `String` and came back.
pub proof fn law_encrypted_text_reads_back(
    key: Option<Seq<char>>,
    plain: Seq<char>,
    stored: EncryptedString,
)
    requires
        stores(key, encode_utf8(plain), stored@),
    ensures
        unsealed(key, stored@) == ok_bytes(encode_utf8(plain)),
        valid_utf8(encode_utf8(plain)),
        decode_utf8(encode_utf8(plain)) == plain,
        reloaded(stored)@ == stored@,
{
    lemma_stored_unseals(key, encode_utf8(plain), stored@);
}

/// An encrypted text that went to the database as a `String` and came back.
pub open spec fn reloaded(stored: EncryptedString) -> EncryptedString {
    <EncryptedString as vstd::std_specs::convert::FromSpec<String>>::from_spec(
        <String as vstd::std_specs::convert::FromSpec<EncryptedString>>::from_spec(stored),
    )
}

/// A stored text decodes to nonce, ciphertext and tag, so that different nonces
/// give different texts for one key and plaintext.
pub proof fn law_different_nonces_store_different_texts(
    material: Seq<u8>,
    plaintext: Seq<u8>,
    nonce: Seq<u8>,
    text: Seq<char>,
    other_nonce: Seq<u8>,
    other_text: Seq<char>,
)
    requires
        is_sealed_text(material, nonce, plaintext, text),
        is_sealed_text(material, other_nonce, plaintext, other_text),
    ensures
        base64_decoded(text) matches Ok(data) && data.len() == 12 + plaintext.len() + 16,
        nonce != other_nonce ==> text != other_text,
{
    law_envelope_splits_where_it_was_joined(nonce, sealed(material, nonce, plaintext)->0);
    law_envelope_splits_where_it_was_joined(
        other_nonce,
        sealed(material, other_nonce, plaintext)->0,
    );
}

/// An envelope taken apart gives back the nonce and the ciphertext it was made
/// of.
pub proof fn law_envelope_splits_where_it_was_joined(nonce: Seq<u8>, ciphertext: Seq<u8>)
    requires
        nonce.len() == 12,
    ensures
        (nonce + ciphertext).take(12) == nonce,
        (nonce + ciphertext).skip(12) == ciphertext,
{
    assert((nonce + ciphertext).take(12) =~= nonce);
    assert((nonce + ciphertext).skip(12) =~= ciphertext);
}

/// Hashing a name is deterministic: keys with the same material hash a name
/// alike, so a stored key is found again.
pub proof fn law_hashing_depends_on_the_material(key: Seq<char>, other: Seq<char>, key_name: Seq<char>)
    requires
        key_material(key) == key_material(other),
    ensures
        hashed_name(Some(key), key_name) == hashed_name(Some(other), key_name),
{
}

/// A key is accepted exactly where it stands for thirty-two bytes, and then it is
/// those bytes.
pub proof fn law_keys_are_thirty_two_bytes(bytes: Seq<u8>, words: Seq<char>)
    ensures
        bytes.len() == 32 ==> key_of_decoded(Ok(bytes)) == ok_bytes(bytes),
        bytes.len() != 32 ==> key_of_decoded(Ok(bytes)) is Err,
        key_of_decoded(Err(words)) is Err,
{
}

/// A key name is kept as it is without a key, and is never kept under one: it is
/// hashed, or the key is refused.
pub proof fn law_key_names_are_hashed_under_a_key(key: Seq<char>, key_name: Seq<char>)
    ensures
        hashed_name(None, key_name) == Ok::<Seq<char>, Seq<char>>(key_name),
        hashed_name(Some(key), key_name) is Ok <==> key_material(key) is Ok,
        key_material(key) matches Ok(material) ==> (hashed_name(
            Some(key),
            key_name,
        )->Ok_0).skip(4) == hex_text(hmac_sha256(material, encode_utf8(key_name))),
{
    reveal_strlit("enc_");
    if let Ok(material) = key_material(key) {
        assert((hashed_name(Some(key), key_name)->Ok_0).skip(4) =~= hex_text(
            hmac_sha256(material, encode_utf8(key_name)),
        ));
    }
}

/// What is encrypted under a key, or under none, decrypts to the same bytes under
/// the same one, from any text with the same characters.
pub proof fn law_encryption_is_undone_by_decryption(
    key: Option<&str>,
    plaintext: &[u8],
    stored: String,
    text: &str,
    r: Result<Vec<u8>, DbError>,
)
    requires
        call_ensures(encrypt_with_key, (key, plaintext), Ok(stored)),
        text@ == stored@,
        call_ensures(decrypt_with_key, (key, text), r),
    ensures
        r matches Ok(bytes) && bytes@ == plaintext@,
{
}

/// An encrypted text decrypts to the text it was made of, under the same key or
/// under none.
pub proof fn law_encrypted_strings_read_back(
    plaintext: &str,
    key: Option<&str>,
    stored: EncryptedString,
    r: Result<String, DbError>,
)
    requires
        call_ensures(EncryptedString::new, (plaintext, key), Ok(stored)),
        call_ensures(EncryptedString::decrypt, (&stored, key), r),
    ensures
        r matches Ok(text) && text@ == plaintext@,
{
}

/// An API key holds its bytes: keys of as many bytes are of one length and begin
/// alike.
pub proof fn law_api_keys_hold_their_bytes(bytes: &[u8], r: String)
    requires
        call_ensures(format_api_key, (bytes,), r),
    ensures
        r@.len() == 3 + (4 * bytes@.len() + 2) / 3,
        r@.skip(3) == base64url_text(bytes@),
        r@.take(3) == seq!['s', 'k', '-'],
{
    reveal_strlit("sk-");
    assert(r@.skip(3) =~= base64url_text(bytes@));
    assert(r@.take(3) =~= seq!['s', 'k', '-']);
}

/// An envelope is taken apart into what was put in it, and one that cannot hold a
/// nonce is refused.
pub proof fn law_envelopes_are_taken_apart<'a>(
    nonce: &[u8],
    ciphertext: &[u8],
    envelope: Vec<u8>,
    data: &'a [u8],
    r: Result<(&'a [u8], &'a [u8]), DbError>,
)
    requires
        call_ensures(join_envelope, (nonce, ciphertext), envelope),
        data@ == envelope@,
        call_ensures(split_envelope, (data,), r),
    ensures
        envelope@.len() == nonce@.len() + ciphertext@.len(),
        nonce@.len() == 12 ==> r is Ok && (r->Ok_0).0@ == nonce@ && (r->Ok_0).1@ == ciphertext@,
        nonce@.len() + ciphertext@.len() < 12 ==> r is Err,
{
    if nonce@.len() == 12 {
        assert(data@.take(12) =~= nonce@);
        assert(data@.skip(12) =~= ciphertext@);
    }
}

/// Key material is what was decoded, where that is thirty-two bytes; anything else
/// is refused, and what cannot be decoded in words that end with the reason.
pub proof fn law_decoded_keys_are_kept(
    decoded: Result<Vec<u8>, String>,
    r: Result<Vec<u8>, DbError>,
)
    requires
        call_ensures(check_key, (decoded,), r),
    ensures
        r is Ok <==> decoded is Ok && (decoded->Ok_0)@.len() == 32,
        r is Ok ==> (r->Ok_0)@ == (decoded->Ok_0)@,
        r is Err ==> r->Err_0 is Other,
        decoded is Err ==> (r matches Err(DbError::Other(words)) && words@.len()
            >= (decoded->Err_0)@.len() && words@.skip(words@.len() - (decoded->Err_0)@.len())
            == (decoded->Err_0)@),
{
    if decoded is Err {
        let words = r->Err_0->Other_0;
        assert(words@.skip(words@.len() - (decoded->Err_0)@.len()) =~= (decoded->Err_0)@);
    }
}

/// Stored text is read under a key only where the key is sound, the text decodes to
/// a nonce and a ciphertext, and the ciphertext opens under them; without a key it
/// is read as it is.
pub proof fn law_only_sealed_texts_are_read(key: Seq<char>, text: Seq<char>, data: Seq<u8>)
    requires
        base64_decoded(text) == ok_bytes(data),
    ensures
        unsealed(None, text) == ok_bytes(encode_utf8(text)),
        key_material(key) is Err ==> unsealed(Some(key), text) is Err,
        data.len() < 12 ==> unsealed(Some(key), text) is Err,
        key_material(key) is Ok && data.len() >= 12 ==> (unsealed(Some(key), text) is Ok
            <==> opened(key_material(key)->Ok_0, data.take(12), data.skip(12)) is Some),
        unsealed(Some(key), text) is Ok ==> opened(
            key_material(key)->Ok_0,
            data.take(12),
            data.skip(12),
        ) == Some(unsealed(Some(key), text)->Ok_0),
{
}

/// Text that cannot be decoded is not read under a key.
pub proof fn law_undecodable_texts_are_refused(key: Seq<char>, text: Seq<char>)
    requires
        base64_decoded(text) is Err,
    ensures
        unsealed(Some(key), text) is Err,
{
}

/// Storing fails under a key that is not sound, for the reason that reading would;
/// under a sound key only what is too long is refused, and without one only what is
/// no text. What can be stored can be stored shorter.
pub proof fn law_storing_fails_as_reading_does(
    key: Seq<char>,
    plaintext: Seq<u8>,
    text: Seq<char>,
    shorter: Seq<u8>,
)
    requires
        shorter.len() <= plaintext.len(),
    ensures
        key_material(key) is Err ==> storing_error(Some(key), plaintext) is Some && unsealed(
            Some(key),
            text,
        ) == err_words(storing_error(Some(key), plaintext)->0),
        key_material(key) is Ok && storing_error(Some(key), plaintext) is None ==> storing_error(
            Some(key),
            shorter,
        ) is None,
        key_material(key) is Ok && plaintext.len() <= u32::MAX ==> storing_error(
            Some(key),
            plaintext,
        ) is None,
        storing_error(None, plaintext) is None <==> valid_utf8(plaintext),
{
}

/// A key is seen as its characters, and no key as none.
pub proof fn law_keys_are_seen_as_they_are(key: &str)
    ensures
        key_view(Some(key)) == Some(key@),
        key_view(None) is None,
{
}

/// A byte more is two digits more behind, the sixteens first: a key name's hash is
/// written byte by byte.
pub proof fn law_bytes_are_written_as_two_digits(bytes: Seq<u8>, high: int, low: int)
    requires
        0 <= high < 16,
        0 <= low < 16,
    ensures
        hex_text(Seq::empty()).len() == 0,
        hex_text(bytes.push((16 * high + low) as u8)) == hex_text(bytes) + seq![
            hex_digit(high),
            hex_digit(low),
        ],
{
    let byte = (16 * high + low) as u8;
    assert(byte as int / 16 == high && byte as int % 16 == low);
    let more = bytes.push(byte);
    let n = bytes.len() as int;
    let wanted = hex_text(bytes) + seq![hex_digit(high), hex_digit(low)];
    assert(hex_text(more).len() == wanted.len());
    assert forall|i: int| 0 <= i < wanted.len() implies hex_text(more)[i] == wanted[i] by {
        if i < 2 * n {
            assert(more[i / 2] == bytes[i / 2]);
        } else {
            assert(i == 2 * n || i == 2 * n + 1);
            assert(i / 2 == n);
            assert(more[n] == byte);
        }
    }
    assert(hex_text(more) =~= wanted);
}

}
