//! Password-based encryption of text: AES-256-GCM under a key derived
//! with Argon2id, packed into a self-describing envelope of base64 text.

use aes_gcm::aead::{Aead, KeyInit};
use argon2::password_hash::rand_core::OsRng;
use argon2::PasswordHasher;
use base64::Engine;
use rand::RngCore;
use vstd::prelude::*;
use vstd::utf8::{decode_utf8, encode_utf8, valid_utf8};

verus! {

/// Version written into new envelopes.
pub const ENVELOPE_VERSION: u8 = 1;

/// Bytes of fresh salt drawn for each encryption.
pub const SALT_LEN: usize = 16;

/// Bytes of an AES-GCM nonce.
pub const NONCE_LEN: usize = 12;

/// Bytes of an AES-256 key.
pub const KEY_LEN: usize = 32;

/// The shortest salt the key derivation accepts without failing hard.
pub const MIN_SALT_LEN: usize = 3;

/// Salts from this many bytes up are long enough for Argon2.
pub const ARGON2_MIN_SALT_LEN: usize = 8;

/// The longest salt that fits a salt string.
pub const ARGON2_MAX_SALT_LEN: usize = 48;

/// The longest password, in UTF-8 bytes, that Argon2 accepts.
pub const MAX_PASSWORD_BYTES: usize = 4294967295;

/// The longest plaintext, in bytes, that AES-GCM seals.
pub const MAX_PLAINTEXT_BYTES: u64 = 68719476736;

/// Bytes that sealing adds: the authentication tag.
pub const TAG_LEN: usize = 16;

/// Encrypted data with everything needed to decrypt it but the password.
pub struct EncryptedEnvelope {
    /// Base64 of the sealed bytes.
    pub ciphertext: String,
    /// Base64 of the nonce.
    pub nonce: String,
    /// Base64 of the key-derivation salt.
    pub salt: String,
    /// Optional password hint.
    pub hint: Option<String>,
    pub version: u8,
}

/// A name for base64's padded standard encoding of some bytes.
pub uninterp spec fn base64_text(b: Seq<u8>) -> Seq<char>;

/// A name for what base64's padded standard decoding makes of some text.
pub uninterp spec fn base64_bytes(s: Seq<char>) -> Option<Seq<u8>>;

/// A name for the output of Argon2id (default parameters) on a password
/// and salt.
pub uninterp spec fn argon2id_output(password: Seq<char>, salt: Seq<u8>) -> Option<Seq<u8>>;

/// A name for AES-256-GCM's sealing of a plaintext.
pub uninterp spec fn aes_gcm_sealed(key: Seq<u8>, nonce: Seq<u8>, plaintext: Seq<u8>) -> Option<Seq<u8>>;

/// A name for AES-256-GCM's opening of a ciphertext.
pub uninterp spec fn aes_gcm_opened(key: Seq<u8>, nonce: Seq<u8>, ciphertext: Seq<u8>) -> Option<Seq<u8>>;

/// Relies on base64's `STANDARD.encode`.
#[verifier::external_body]
fn b64_encode(b: &[u8]) -> (r: String)
    ensures
        r@ == base64_text(b@),
        r@.len() == 4 * ((b@.len() + 2) / 3),
        base64_bytes(r@) == Some(b@),
{
    base64::engine::general_purpose::STANDARD.encode(b)
}

/// Relies on base64's `STANDARD.decode`, which fails on text that is not
/// canonical padded base64.
#[verifier::external_body]
fn b64_decode(s: &str) -> (r: Result<Vec<u8>, String>)
    ensures
        match r {
            Ok(v) => base64_bytes(s@) == Some(v@),
            Err(_) => base64_bytes(s@) is None,
        },
{
    match base64::engine::general_purpose::STANDARD.decode(s) {
        Ok(v) => Ok(v),
        Err(e) => Err(e.to_string()),
    }
}

/// Relies on `OsRng::try_fill_bytes`: `n` bytes from the operating
/// system's random source, or an error when that source fails. Nothing is
/// known of the bytes' values.
#[verifier::external_body]
fn random_bytes(n: usize) -> (r: Result<Vec<u8>, String>)
    ensures
        r matches Ok(v) ==> v@.len() == n,
{
    let mut v = vec![0u8; n];
    match OsRng.try_fill_bytes(&mut v) {
        Ok(()) => Ok(v),
        Err(e) => Err(format!("Random source error: {}", e)),
    }
}

/// Relies on argon2's `Argon2::default().hash_password` with the salt as
/// `SaltString::encode_b64(salt)`. Encoding fails for salts over 48 bytes
/// and hashing for salts under 8; salts under 3 bytes make the salt string
/// too short to read back, which panics, so they are not admitted. With a
/// salt of 8 to 48 bytes and a password of at most `MAX_PASSWORD_BYTES`
/// bytes it succeeds; the output has the default length of 32 bytes.
#[verifier::external_body]
fn argon2id_hash(password: &str, salt: &[u8]) -> (r: Result<Vec<u8>, String>)
    requires
        salt@.len() >= MIN_SALT_LEN,
    ensures
        match r {
            Ok(v) => argon2id_output(password@, salt@) == Some(v@),
            Err(_) => argon2id_output(password@, salt@) is None,
        },
        ARGON2_MIN_SALT_LEN <= salt@.len() <= ARGON2_MAX_SALT_LEN && encode_utf8(password@).len()
            <= MAX_PASSWORD_BYTES ==> r is Ok,
        r matches Ok(v) ==> v@.len() == KEY_LEN,
{
    let salt_string = argon2::password_hash::SaltString::encode_b64(salt)
        .map_err(|e| format!("Salt error: {}", e))?;
    let hash = argon2::Argon2::default()
        .hash_password(password.as_bytes(), &salt_string)
        .map_err(|e| format!("Hash error: {}", e))?;
    match hash.hash {
        Some(out) => Ok(out.as_bytes().to_vec()),
        None => Err("No hash output".to_string()),
    }
}

/// Relies on aes-gcm's `Aes256Gcm::new_from_slice(key)` and `encrypt`
/// under `Nonce::from_slice(nonce)`; the latter panics unless the nonce
/// has 12 bytes, and the former refuses keys of other than 32 bytes.
/// Sealing fails only on plaintexts over 2^36 bytes; the sealed bytes are
/// the plaintext's length plus the 16-byte tag, and opening them with the
/// same key and nonce gives the plaintext back.
#[verifier::external_body]
fn aes_seal(key: &[u8], nonce: &[u8], plaintext: &[u8]) -> (r: Result<Vec<u8>, String>)
    requires
        nonce@.len() == NONCE_LEN,
    ensures
        match r {
            Ok(c) => aes_gcm_sealed(key@, nonce@, plaintext@) == Some(c@),
            Err(_) => aes_gcm_sealed(key@, nonce@, plaintext@) is None,
        },
        key@.len() == KEY_LEN && plaintext@.len() <= MAX_PLAINTEXT_BYTES ==> r is Ok,
        r matches Ok(c) ==> c@.len() == plaintext@.len() + TAG_LEN,
        r matches Ok(c) ==> aes_gcm_opened(key@, nonce@, c@) == Some(plaintext@),
{
    let cipher = aes_gcm::Aes256Gcm::new_from_slice(key).map_err(|e| format!("Cipher error: {}", e))?;
    cipher
        .encrypt(aes_gcm::Nonce::from_slice(nonce), plaintext)
        .map_err(|e| format!("Encryption error: {}", e))
}

/// Relies on aes-gcm's `Aes256Gcm::new_from_slice(key)` and `decrypt`
/// under `Nonce::from_slice(nonce)`, as for sealing.
#[verifier::external_body]
fn aes_open(key: &[u8], nonce: &[u8], ciphertext: &[u8]) -> (r: Result<Vec<u8>, String>)
    requires
        nonce@.len() == NONCE_LEN,
    ensures
        match r {
            Ok(p) => aes_gcm_opened(key@, nonce@, ciphertext@) == Some(p@),
            Err(_) => aes_gcm_opened(key@, nonce@, ciphertext@) is None,
        },
{
    let cipher = aes_gcm::Aes256Gcm::new_from_slice(key).map_err(|e| format!("Cipher error: {}", e))?;
    cipher
        .decrypt(aes_gcm::Nonce::from_slice(nonce), ciphertext)
        .map_err(|_| "Decryption failed - wrong password or corrupted data".to_string())
}

/// Relies on `String::from_utf8`: it accepts exactly valid UTF-8.
#[verifier::external_body]
fn utf8_string(v: Vec<u8>) -> (r: Result<String, String>)
    ensures
        match r {
            Ok(s) => valid_utf8(v@) && s@ == decode_utf8(v@),
            Err(_) => !valid_utf8(v@),
        },
{
    String::from_utf8(v).map_err(|e| format!("UTF-8 decode error: {}", e))
}

/// The 256-bit key for a password and salt: the first 32 bytes of the
/// Argon2id output.
pub open spec fn derived_key(password: Seq<char>, salt: Seq<u8>) -> Option<Seq<u8>> {
    match argon2id_output(password, salt) {
        Some(out) => if out.len() >= KEY_LEN {
            Some(out.subrange(0, KEY_LEN as int))
        } else {
            None
        },
        None => None,
    }
}

/// The sealed bytes of `plaintext` under `password`, `salt` and `nonce`.
pub open spec fn sealed(plaintext: Seq<char>, password: Seq<char>, salt: Seq<u8>, nonce: Seq<u8>) -> Option<
    Seq<u8>,
> {
    match derived_key(password, salt) {
        Some(k) => aes_gcm_sealed(k, nonce, utf8_bytes(plaintext)),
        None => None,
    }
}

/// The UTF-8 bytes of some text.
pub open spec fn utf8_bytes(s: Seq<char>) -> Seq<u8> {
    vstd::utf8::encode_utf8(s)
}

/// The plaintext bytes an envelope opens to under `password`: all three
/// fields must decode, the nonce must have 12 bytes and the salt at least
/// `MIN_SALT_LEN`, the key must derive and the ciphertext must open.
pub open spec fn opened(ciphertext: Seq<char>, nonce: Seq<char>, salt: Seq<char>, password: Seq<char>) -> Option<
    Seq<u8>,
> {
    match (base64_bytes(ciphertext), base64_bytes(nonce), base64_bytes(salt)) {
        (Some(c), Some(n), Some(s)) => if n.len() == NONCE_LEN && s.len() >= MIN_SALT_LEN {
            match derived_key(password, s) {
                Some(k) => aes_gcm_opened(k, n, c),
                None => None,
            }
        } else {
            None
        },
        _ => None,
    }
}

/// The text an envelope decrypts to: the opened bytes, when they are UTF-8.
pub open spec fn decrypted(e: EncryptedEnvelope, password: Seq<char>) -> Option<Seq<char>> {
    match opened(e.ciphertext@, e.nonce@, e.salt@, password) {
        Some(p) => if valid_utf8(p) {
            Some(decode_utf8(p))
        } else {
            None
        },
        None => None,
    }
}

/// Whether a password and plaintext are short enough for Argon2 and
/// AES-GCM, so that encryption succeeds.
pub open spec fn within_limits(plaintext: Seq<char>, password: Seq<char>) -> bool {
    encode_utf8(password).len() <= MAX_PASSWORD_BYTES && encode_utf8(plaintext).len()
        <= MAX_PLAINTEXT_BYTES
}

/// Derives the 256-bit key for `password` and `salt`.
fn derive_key(password: &str, salt: &[u8]) -> (r: Result<Vec<u8>, String>)
    requires
        salt@.len() >= MIN_SALT_LEN,
    ensures
        match r {
            Ok(k) => derived_key(password@, salt@) == Some(k@),
            Err(_) => derived_key(password@, salt@) is None,
        },
        ARGON2_MIN_SALT_LEN <= salt@.len() <= ARGON2_MAX_SALT_LEN && encode_utf8(password@).len()
            <= MAX_PASSWORD_BYTES ==> r is Ok,
        r matches Ok(k) ==> k@.len() == KEY_LEN,
{
    let out = argon2id_hash(password, salt)?;
    if out.len() < KEY_LEN {
        return Err("Hash output too short".to_string());
    }
    let mut key: Vec<u8> = Vec::new();
    let mut i: usize = 0;
    while i < KEY_LEN
        invariant
            i <= KEY_LEN <= out@.len(),
            key@ == out@.subrange(0, i as int),
        decreases KEY_LEN - i,
    {
        key.push(out[i]);
        proof {
            assert(key@ =~= out@.subrange(0, i + 1));
        }
        i = i + 1;
    }
    Ok(key)
}

/// Encrypts `plaintext` under `password` with the given salt and nonce.
pub fn encrypt_with(plaintext: &str, password: &str, hint: Option<String>, salt: &[u8], nonce: &[u8]) -> (r:
    Result<EncryptedEnvelope, String>)
    requires
        salt@.len() == SALT_LEN,
        nonce@.len() == NONCE_LEN,
    ensures
        match r {
            Ok(e) => {
                &&& sealed(plaintext@, password@, salt@, nonce@) is Some
                &&& e.ciphertext@ == base64_text(sealed(plaintext@, password@, salt@, nonce@)->0)
                &&& e.nonce@ == base64_text(nonce@)
                &&& e.salt@ == base64_text(salt@)
                &&& e.hint == hint
                &&& e.version == ENVELOPE_VERSION
            },
            Err(_) => sealed(plaintext@, password@, salt@, nonce@) is None,
        },
        within_limits(plaintext@, password@) ==> r is Ok,
        r matches Ok(e) ==> decrypted(e, password@) == Some(plaintext@),
        r matches Ok(e) ==> base64_bytes(e.salt@) == Some(salt@),
        r matches Ok(e) ==> base64_bytes(e.nonce@) == Some(nonce@),
        r matches Ok(e) ==> (base64_bytes(e.ciphertext@) matches Some(c) && c.len() == utf8_bytes(
            plaintext@,
        ).len() + TAG_LEN),
{
    broadcast use vstd::utf8::encode_utf8_valid_utf8, vstd::utf8::encode_utf8_decode_utf8;

    let key = derive_key(password, salt)?;
    let ciphertext = aes_seal(key.as_slice(), nonce, plaintext.as_bytes())?;
    Ok(
        EncryptedEnvelope {
            ciphertext: b64_encode(ciphertext.as_slice()),
            nonce: b64_encode(nonce),
            salt: b64_encode(salt),
            hint,
            version: ENVELOPE_VERSION,
        },
    )
}

/// Encrypts `plaintext` under `password` with a fresh random salt and
/// nonce; the envelope records both.
pub fn encrypt(plaintext: &str, password: &str, hint: Option<String>) -> (r: Result<
    EncryptedEnvelope,
    String,
>)
    ensures
        r matches Ok(e) ==> exists|salt: Seq<u8>, nonce: Seq<u8>|
            {
                &&& salt.len() == SALT_LEN
                &&& nonce.len() == NONCE_LEN
                &&& #[trigger] sealed(plaintext@, password@, salt, nonce) is Some
                &&& e.ciphertext@ == base64_text(sealed(plaintext@, password@, salt, nonce)->0)
                &&& e.nonce@ == base64_text(nonce)
                &&& e.salt@ == base64_text(salt)
                &&& base64_bytes(e.salt@) == Some(salt)
                &&& base64_bytes(e.nonce@) == Some(nonce)
            },
        r matches Ok(e) ==> e.hint == hint && e.version == ENVELOPE_VERSION,
        r matches Ok(e) ==> decrypted(e, password@) == Some(plaintext@),
        r matches Ok(e) ==> (base64_bytes(e.ciphertext@) matches Some(c) && c.len() == utf8_bytes(
            plaintext@,
        ).len() + TAG_LEN),
{
    let salt = random_bytes(SALT_LEN)?;
    let nonce = random_bytes(NONCE_LEN)?;
    encrypt_with(plaintext, password, hint, salt.as_slice(), nonce.as_slice())
}

/// Decrypts an envelope with `password`. It succeeds exactly when the
/// envelope opens under the password to UTF-8 text, which it returns.
pub fn decrypt(envelope: &EncryptedEnvelope, password: &str) -> (r: Result<String, String>)
    ensures
        match r {
            Ok(t) => decrypted(*envelope, password@) == Some(t@),
            Err(_) => decrypted(*envelope, password@) is None,
        },
{
    let ciphertext = match b64_decode(envelope.ciphertext.as_str()) {
        Ok(v) => v,
        Err(e) => return Err("Ciphertext decode error: ".to_string().concat(e.as_str())),
    };
    let nonce = match b64_decode(envelope.nonce.as_str()) {
        Ok(v) => v,
        Err(e) => return Err("Nonce decode error: ".to_string().concat(e.as_str())),
    };
    let salt = match b64_decode(envelope.salt.as_str()) {
        Ok(v) => v,
        Err(e) => return Err("Salt decode error: ".to_string().concat(e.as_str())),
    };
    if nonce.len() != NONCE_LEN {
        return Err("Nonce decode error: a nonce has 12 bytes".to_string());
    }
    if salt.len() < MIN_SALT_LEN {
        return Err("Salt error: salt too short".to_string());
    }
    let key = derive_key(password, salt.as_slice())?;
    let plaintext = aes_open(key.as_slice(), nonce.as_slice(), ciphertext.as_slice())?;
    utf8_string(plaintext)
}

} // verus!
