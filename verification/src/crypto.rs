//! Password sealing for the router store: a 32-byte key is derived from the
//! user's passphrase and a stored salt (Argon2id, default parameters), and each
//! password is kept as `base64(nonce(12) || AES-256-GCM ciphertext)`.
//!
//! The cryptography is done by the `argon2`, `aes-gcm`, `base64` and `rand`
//! crates; this module frames, splits and checks the bytes around those calls.

use vstd::prelude::*;
use vstd::utf8::*;
use aes_gcm::aead::{Aead, KeyInit};
use base64::Engine;
use rand::RngCore;

verus! {

broadcast use vstd::utf8::group_utf8_lib;

// ─── Names for what the outside calls return ────────────────────────────────

/// What `base64::engine::general_purpose::STANDARD.encode` gives for `bytes`.
pub uninterp spec fn base64_encoding(bytes: Seq<u8>) -> Seq<char>;

/// What `STANDARD.decode` gives for the text: the bytes, or `None` where it
/// reports an error.
pub uninterp spec fn base64_decoding(text: Seq<char>) -> Option<Seq<u8>>;

/// The 32-byte key `Argon2::default().hash_password_into` writes for a
/// password and salt that it accepts.
pub uninterp spec fn argon2_key(pwd: Seq<u8>, salt: Seq<u8>) -> Seq<u8>;

/// What AES-256-GCM encryption (no associated data) gives: ciphertext followed
/// by the 16-byte tag.
pub uninterp spec fn aes_gcm_sealed(key: Seq<u8>, nonce: Seq<u8>, plain: Seq<u8>) -> Seq<u8>;

/// What AES-256-GCM decryption gives: the plaintext, or `None` where the tag
/// does not match (or the input is too short or too long).
pub uninterp spec fn aes_gcm_opened(key: Seq<u8>, nonce: Seq<u8>, sealed: Seq<u8>) -> Option<Seq<u8>>;

/// Largest plaintext (in bytes) that AES-GCM encrypts.
pub open spec fn aes_gcm_plain_max() -> int {
    0x10_0000_0000
}

/// Length of the random nonce stored in front of each ciphertext.
pub const NONCE_LEN: usize = 12;

/// The error text `hash_password_into` gives for a password and salt, with a
/// 32-byte output and default parameters; `None` where it succeeds.
pub open spec fn argon2_failure(pwd: Seq<u8>, salt: Seq<u8>) -> Option<Seq<char>> {
    if pwd.len() > 0xFFFF_FFFF {
        Some("password is too long"@)
    } else if salt.len() < 8 {
        Some("salt is too short"@)
    } else if salt.len() > 0xFFFF_FFFF {
        Some("salt is too long"@)
    } else {
        None
    }
}

/// An optional byte vector seen as an optional byte sequence.
pub open spec fn bytes_view(o: Option<Vec<u8>>) -> Option<Seq<u8>> {
    match o {
        Some(v) => Some(v@),
        None => None,
    }
}

// ─── Trusted calls ───────────────────────────────────────────────────────────

/// Calls `STANDARD.encode` (standard alphabet, padded). Claimed: the text is a
/// function of the bytes alone, named `base64_encoding`, and `decode` gives
/// the bytes back from it. `encode` panics when the encoded length overflows
/// `usize`; `requires` leaves that out.
#[verifier::external_body]
fn base64_encode(bytes: &[u8]) -> (r: String)
    requires
        (bytes@.len() + 2) / 3 * 4 <= usize::MAX,
    ensures
        r@ == base64_encoding(bytes@),
        base64_decoding(r@) == Some(bytes@),
{
    base64::engine::general_purpose::STANDARD.encode(bytes)
}

/// Calls `STANDARD.decode` on the text's bytes; an error becomes `None`.
/// Claimed: the outcome is a function of the text, named `base64_decoding`,
/// and decoding what `encode` produced gives the encoded bytes back.
#[verifier::external_body]
fn base64_decode(text: &str) -> (r: Option<Vec<u8>>)
    ensures
        bytes_view(r) == base64_decoding(text@),
        forall|b: Seq<u8>| #[trigger] base64_encoding(b) == text@ ==> bytes_view(r) == Some(b),
{
    base64::engine::general_purpose::STANDARD.decode(text).ok()
}

/// Calls `Argon2::default().hash_password_into` with a 32-byte output.
/// Claimed, from the crate's source: it fails exactly as `argon2_failure`
/// says (lengths of password and salt; the output length is fixed here), with
/// that error's text; otherwise the key is a function of password and salt,
/// named `argon2_key`.
#[verifier::external_body]
fn argon2_hash(pwd: &[u8], salt: &[u8]) -> (r: Result<[u8; 32], String>)
    ensures
        match argon2_failure(pwd@, salt@) {
            Some(m) => r is Err && r->Err_0@ == m,
            None => r is Ok && r->Ok_0@ == argon2_key(pwd@, salt@),
        },
{
    let mut key = [0u8; 32];
    match argon2::Argon2::default().hash_password_into(pwd, salt, &mut key) {
        Ok(()) => Ok(key),
        Err(e) => Err(e.to_string()),
    }
}

/// Calls `Aes256Gcm::encrypt` (no associated data); an error becomes `None`.
/// Claimed, from the crate's source: it fails exactly when the plaintext is
/// longer than `P_MAX` (2^36 bytes); otherwise the output is a function of
/// key, nonce and plaintext, named `aes_gcm_sealed`, 16 bytes longer than the
/// plaintext, and decryption under the same key and nonce gives the
/// plaintext back (the defining property of an AEAD).
#[verifier::external_body]
fn aes_gcm_seal(key: &[u8; 32], nonce: &[u8], plain: &[u8]) -> (r: Option<Vec<u8>>)
    requires
        nonce@.len() == 12,
    ensures
        r is Some <==> plain@.len() <= aes_gcm_plain_max(),
        r is Some ==> r->0@ == aes_gcm_sealed(key@, nonce@, plain@),
        r is Some ==> r->0@.len() == plain@.len() + 16,
        r is Some ==> aes_gcm_opened(key@, nonce@, r->0@) == Some(plain@),
{
    let cipher = aes_gcm::Aes256Gcm::new(aes_gcm::Key::<aes_gcm::Aes256Gcm>::from_slice(key));
    cipher.encrypt(aes_gcm::Nonce::from_slice(nonce), plain).ok()
}

/// Calls `Aes256Gcm::decrypt` (no associated data); an error becomes `None`.
/// Claimed: the outcome is a function of key, nonce and input, named
/// `aes_gcm_opened`, and opening what `encrypt` sealed under the same key and
/// nonce gives the plaintext back (the defining property of an AEAD).
#[verifier::external_body]
fn aes_gcm_open(key: &[u8; 32], nonce: &[u8], sealed: &[u8]) -> (r: Option<Vec<u8>>)
    requires
        nonce@.len() == 12,
    ensures
        bytes_view(r) == aes_gcm_opened(key@, nonce@, sealed@),
        forall|p: Seq<u8>|
            p.len() <= aes_gcm_plain_max() && #[trigger] aes_gcm_sealed(key@, nonce@, p) == sealed@
                ==> bytes_view(r) == Some(p),
{
    let cipher = aes_gcm::Aes256Gcm::new(aes_gcm::Key::<aes_gcm::Aes256Gcm>::from_slice(key));
    cipher.decrypt(aes_gcm::Nonce::from_slice(nonce), sealed).ok()
}

/// Fills `n` bytes from `rand::thread_rng()`. Only the length is stated: the
/// bytes are random.
#[verifier::external_body]
fn random_bytes(n: usize) -> (r: Vec<u8>)
    ensures
        r@.len() == n,
{
    let mut v = vec![0u8; n];
    rand::thread_rng().fill_bytes(&mut v);
    v
}

/// Calls `String::from_utf8`; an error becomes `None`. As std documents it:
/// it succeeds exactly on valid UTF-8, with the string those bytes encode.
#[verifier::external_body]
fn utf8_string(bytes: Vec<u8>) -> (r: Option<String>)
    ensures
        r is Some <==> valid_utf8(bytes@),
        r is Some ==> r->0@ == decode_utf8(bytes@),
{
    String::from_utf8(bytes).ok()
}

// ─── Sealing and opening stored passwords ───────────────────────────────────

/// Why a key could not be derived or a password sealed or opened.
#[derive(Debug, Clone)]
pub enum CryptoError {
    /// The stored salt is not valid base64.
    InvalidSalt,
    /// Argon2 refused the passphrase or salt; the text is its error message.
    Argon2(String),
    /// AES-GCM refused the plaintext (longer than 2^36 bytes).
    Encrypt,
    /// The stored password is not valid base64.
    InvalidBase64,
    /// The stored blob is shorter than a nonce.
    BlobTooShort,
    /// The tag did not verify: wrong passphrase, or the blob was altered.
    DecryptionFailed,
    /// The decrypted bytes are not UTF-8.
    NotUtf8,
}

impl CryptoError {
    /// The message shown for this error.
    pub fn message(&self) -> (r: String)
        ensures
            match self {
                CryptoError::InvalidSalt => r@ == "invalid stored salt"@,
                CryptoError::Argon2(m) => r@ == "argon2 error: "@ + m@,
                CryptoError::Encrypt => r@ == "encrypt error: aead::Error"@,
                CryptoError::InvalidBase64 => r@ == "invalid base64 in db"@,
                CryptoError::BlobTooShort => r@ == "blob too short"@,
                CryptoError::DecryptionFailed => r@ == "decryption failed — wrong passphrase?"@,
                CryptoError::NotUtf8 => r@ == "decrypted password not utf-8"@,
            },
    {
        match self {
            CryptoError::InvalidSalt => "invalid stored salt".to_string(),
            CryptoError::Argon2(m) => {
                let mut v = crate::text::chars_of("argon2 error: ");
                crate::text::append_chars(&mut v, crate::text::chars_of(m.as_str()));
                crate::text::string_of(&v)
            },
            CryptoError::Encrypt => "encrypt error: aead::Error".to_string(),
            CryptoError::InvalidBase64 => "invalid base64 in db".to_string(),
            CryptoError::BlobTooShort => "blob too short".to_string(),
            CryptoError::DecryptionFailed => "decryption failed — wrong passphrase?".to_string(),
            CryptoError::NotUtf8 => "decrypted password not utf-8".to_string(),
        }
    }
}

/// Derives the 32-byte store key from the passphrase and the base64 salt.
pub fn derive_key(passphrase: &str, salt_b64: &str) -> (r: Result<[u8; 32], CryptoError>)
    ensures
        match base64_decoding(salt_b64@) {
            None => r matches Err(CryptoError::InvalidSalt),
            Some(salt) => match argon2_failure(encode_utf8(passphrase@), salt) {
                Some(m) => r matches Err(CryptoError::Argon2(t)) && t@ == m,
                None => r matches Ok(k) && k@ == argon2_key(encode_utf8(passphrase@), salt),
            },
        },
{
    let salt = match base64_decode(salt_b64) {
        Some(s) => s,
        None => return Err(CryptoError::InvalidSalt),
    };
    match argon2_hash(passphrase.as_bytes(), salt.as_slice()) {
        Ok(k) => Ok(k),
        Err(m) => Err(CryptoError::Argon2(m)),
    }
}

/// A fresh salt for a new store: 16 random bytes, base64-encoded.
pub fn fresh_salt() -> (s: String)
    ensures
        exists|b: Seq<u8>| b.len() == 16 && s@ == #[trigger] base64_encoding(b),
{
    let b = random_bytes(16);
    let s = base64_encode(b.as_slice());
    assert(b@.len() == 16 && s@ == base64_encoding(b@));
    s
}

/// The stored text for `plain` sealed under `key` with `nonce`:
/// `base64(nonce || AES-GCM(key, nonce, utf8(plain)))`.
pub open spec fn sealed_text(key: Seq<u8>, nonce: Seq<u8>, plain: Seq<char>) -> Seq<char> {
    base64_encoding(nonce + aes_gcm_sealed(key, nonce, encode_utf8(plain)))
}

/// The password a stored text opens to under `key`, or `None` where opening
/// fails (bad base64, short blob, tag mismatch, not UTF-8).
pub open spec fn opened_text(key: Seq<u8>, text: Seq<char>) -> Option<Seq<char>> {
    match base64_decoding(text) {
        None => None,
        Some(blob) => if blob.len() < NONCE_LEN {
            None
        } else {
            match aes_gcm_opened(key, blob.subrange(0, 12), blob.subrange(12, blob.len() as int)) {
                None => None,
                Some(plain) => if valid_utf8(plain) {
                    Some(decode_utf8(plain))
                } else {
                    None
                },
            }
        },
    }
}

/// The plaintext is short enough that its sealed text's length fits a `usize`.
pub open spec fn seal_fits(plain: Seq<char>) -> bool {
    (encode_utf8(plain).len() + 30) / 3 * 4 <= usize::MAX
}

/// Seals `plaintext` under `key` with the given 12-byte nonce.
pub fn seal_with_nonce(key: &[u8; 32], nonce: &[u8], plaintext: &str) -> (r: Result<String, CryptoError>)
    requires
        nonce@.len() == NONCE_LEN,
        seal_fits(plaintext@),
    ensures
        encode_utf8(plaintext@).len() <= aes_gcm_plain_max()
            ==> (r matches Ok(s) && s@ == sealed_text(key@, nonce@, plaintext@)),
        encode_utf8(plaintext@).len() > aes_gcm_plain_max() ==> r matches Err(CryptoError::Encrypt),
        r matches Ok(s) ==> opened_text(key@, s@) == Some(plaintext@),
{
    let mut sealed = match aes_gcm_seal(key, nonce, plaintext.as_bytes()) {
        Some(c) => c,
        None => return Err(CryptoError::Encrypt),
    };
    let ghost sealed_bytes = sealed@;
    let mut blob = vstd::slice::slice_to_vec(nonce);
    blob.append(&mut sealed);
    let text = base64_encode(blob.as_slice());
    proof {
        assert(blob@.subrange(0, 12) =~= nonce@);
        assert(blob@.subrange(12, blob@.len() as int) =~= sealed_bytes);
    }
    Ok(text)
}

/// Encrypts a password for storage under a fresh random nonce; what it
/// returns opens (see `decrypt` and `opened_text`) to the password.
pub fn encrypt(key: &[u8; 32], plaintext: &str) -> (r: Result<String, CryptoError>)
    requires
        seal_fits(plaintext@),
    ensures
        encode_utf8(plaintext@).len() <= aes_gcm_plain_max() ==> (r matches Ok(s)
            && exists|n: Seq<u8>| n.len() == NONCE_LEN && s@ == #[trigger] sealed_text(key@, n, plaintext@)),
        encode_utf8(plaintext@).len() > aes_gcm_plain_max() ==> r matches Err(CryptoError::Encrypt),
        r matches Ok(s) ==> opened_text(key@, s@) == Some(plaintext@),
{
    let nonce = random_bytes(NONCE_LEN);
    let r = seal_with_nonce(key, nonce.as_slice(), plaintext);
    proof {
        if encode_utf8(plaintext@).len() <= aes_gcm_plain_max() {
            assert(nonce@.len() == NONCE_LEN && r->Ok_0@ == sealed_text(key@, nonce@, plaintext@));
        }
    }
    r
}

/// Opens a stored password: decode the base64, split off the nonce, decrypt,
/// and read the bytes as UTF-8. Whatever `encrypt` sealed under the same key
/// opens to the plaintext it was given.
pub fn decrypt(key: &[u8; 32], text: &str) -> (r: Result<String, CryptoError>)
    ensures
        match base64_decoding(text@) {
            None => r matches Err(CryptoError::InvalidBase64),
            Some(blob) => if blob.len() < NONCE_LEN {
                r matches Err(CryptoError::BlobTooShort)
            } else {
                match aes_gcm_opened(key@, blob.subrange(0, 12), blob.subrange(12, blob.len() as int)) {
                    None => r matches Err(CryptoError::DecryptionFailed),
                    Some(plain) => if valid_utf8(plain) {
                        r matches Ok(s) && s@ == decode_utf8(plain)
                    } else {
                        r matches Err(CryptoError::NotUtf8)
                    },
                }
            },
        },
        match opened_text(key@, text@) {
            Some(p) => r matches Ok(s) && s@ == p,
            None => r is Err,
        },
        forall|n: Seq<u8>, p: Seq<char>|
            n.len() == NONCE_LEN && encode_utf8(p).len() <= aes_gcm_plain_max()
                && #[trigger] sealed_text(key@, n, p) == text@ ==> (r matches Ok(s) && s@ == p),
{
    let blob = base64_decode(text);
    let blob = match blob {
        Some(b) => b,
        None => return Err(CryptoError::InvalidBase64),
    };
    proof {
        assert forall|n: Seq<u8>, p: Seq<char>|
            n.len() == NONCE_LEN && #[trigger] sealed_text(key@, n, p) == text@ implies
            blob@ == n + aes_gcm_sealed(key@, n, encode_utf8(p)) by {}
    }
    if blob.len() < NONCE_LEN {
        return Err(CryptoError::BlobTooShort);
    }
    let (nonce, sealed) = blob.as_slice().split_at(NONCE_LEN);
    proof {
        assert forall|n: Seq<u8>, p: Seq<char>|
            n.len() == NONCE_LEN && #[trigger] sealed_text(key@, n, p) == text@ implies
            nonce@ == n && sealed@ == aes_gcm_sealed(key@, n, encode_utf8(p)) by {
            let whole = n + aes_gcm_sealed(key@, n, encode_utf8(p));
            assert(whole.subrange(0, 12) =~= n);
            assert(whole.subrange(12, whole.len() as int) =~= aes_gcm_sealed(key@, n, encode_utf8(p)));
        }
    }
    let plain = match aes_gcm_open(key, nonce, sealed) {
        Some(p) => p,
        None => return Err(CryptoError::DecryptionFailed),
    };
    match utf8_string(plain) {
        Some(s) => Ok(s),
        None => Err(CryptoError::NotUtf8),
    }
}

} // verus!
