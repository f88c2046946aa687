//! Encryption of secrets with AES-256-GCM, stored as base64 text.
//!
//! A sealed text is the base64 encoding of a 12-byte nonce followed by the
//! AES-256-GCM ciphertext (with its 16-byte tag) of the UTF-8 bytes of the
//! secret.  Decrypting the sealed text with the same key gives the secret back.
use vstd::prelude::*;
use vstd::utf8::{decode_utf8, encode_utf8, valid_utf8};
use aes_gcm::{Aes256Gcm, Key, Nonce};
use aes_gcm::aead::{Aead, AeadCore, KeyInit, OsRng};
use base64::Engine;
use base64::engine::general_purpose;

verus! {

broadcast use vstd::utf8::group_utf8_lib;

/// Length of an AES-256 key in bytes.
pub const KEY_LEN: usize = 32;

/// Length of an AES-GCM nonce in bytes.
pub const NONCE_LEN: usize = 12;

/// Largest plaintext, in bytes, that AES-GCM accepts.
pub const P_MAX: u64 = 68719476736u64;

/// Ciphertext and tag that AES-256-GCM produces for `plaintext` under `key`
/// and `nonce` (no associated data).
pub uninterp spec fn aes256gcm_seal(key: Seq<u8>, nonce: Seq<u8>, plaintext: Seq<u8>) -> Seq<u8>;

/// What AES-256-GCM decryption gives for `ciphertext` (with its tag) under
/// `key` and `nonce`: the plaintext when the tag is authentic, else nothing.
pub uninterp spec fn aes256gcm_open(key: Seq<u8>, nonce: Seq<u8>, ciphertext: Seq<u8>) -> Option<Seq<u8>>;

/// Standard base64 encoding (with padding) of `bytes`.
pub uninterp spec fn base64_encode(bytes: Seq<u8>) -> Seq<char>;

/// Standard base64 decoding (canonical padding required) of `text`.
pub uninterp spec fn base64_decoded(text: Seq<char>) -> Option<Seq<u8>>;

/// Why encrypting, decrypting or loading a key failed.
#[derive(PartialEq, Eq, Structural, Debug)]
pub enum CryptoError {
    /// The plaintext is longer than AES-GCM accepts.
    EncryptFailed,
    /// The text is not valid base64.
    BadEncoding,
    /// The decoded text is shorter than a nonce.
    TooShort,
    /// The ciphertext is not authentic under the key.
    DecryptFailed,
    /// The decrypted bytes are not UTF-8.
    NotUtf8,
    /// Key material that is not 32 bytes long.
    WrongKeyLength,
}

/// The bytes held by an optional buffer.
pub open spec fn opt_bytes(v: Option<Vec<u8>>) -> Option<Seq<u8>> {
    match v {
        Some(b) => Some(b@),
        None => None,
    }
}

/// The stored form of `secret` sealed under `key` with `nonce`.
pub open spec fn sealed_text(key: Seq<u8>, nonce: Seq<u8>, secret: Seq<char>) -> Seq<char> {
    base64_encode(nonce + aes256gcm_seal(key, nonce, encode_utf8(secret)))
}

/// What decrypting `text` under `key` gives.
pub open spec fn decrypt_outcome(key: Seq<u8>, text: Seq<char>) -> Result<Seq<char>, CryptoError> {
    match base64_decoded(text) {
        None => Err(CryptoError::BadEncoding),
        Some(b) => if b.len() < NONCE_LEN {
            Err(CryptoError::TooShort)
        } else {
            match aes256gcm_open(key, b.take(NONCE_LEN as int), b.skip(NONCE_LEN as int)) {
                None => Err(CryptoError::DecryptFailed),
                Some(p) => if valid_utf8(p) {
                    Ok(decode_utf8(p))
                } else {
                    Err(CryptoError::NotUtf8)
                },
            }
        },
    }
}

/// Calls `Aead::encrypt` of `Aes256Gcm` with no associated data.  The crate
/// refuses plaintexts longer than `P_MAX` bytes and otherwise returns the
/// ciphertext followed by the 16-byte tag.
#[verifier::external_body]
fn aes_seal(key: &Vec<u8>, nonce: &Vec<u8>, plaintext: &[u8]) -> (r: Option<Vec<u8>>)
    requires
        key@.len() == KEY_LEN,
        nonce@.len() == NONCE_LEN,
    ensures
        r is Some <==> plaintext@.len() <= P_MAX,
        r matches Some(c) ==> c@ == aes256gcm_seal(key@, nonce@, plaintext@)
            && c@.len() == plaintext@.len() + 16,
{
    let cipher = Aes256Gcm::new(Key::<Aes256Gcm>::from_slice(key));
    cipher.encrypt(Nonce::from_slice(nonce), plaintext).ok()
}

/// Calls `Aead::decrypt` of `Aes256Gcm` with no associated data.  Its result is
/// named `aes256gcm_open`; decryption undoes encryption under the same key and
/// nonce, so a ciphertext that `aes_seal` produced opens to its plaintext.
#[verifier::external_body]
fn aes_open(key: &Vec<u8>, nonce: &Vec<u8>, ciphertext: &Vec<u8>) -> (r: Option<Vec<u8>>)
    requires
        key@.len() == KEY_LEN,
        nonce@.len() == NONCE_LEN,
    ensures
        opt_bytes(r) == aes256gcm_open(key@, nonce@, ciphertext@),
        forall|p: Seq<u8>|
            #[trigger] aes256gcm_seal(key@, nonce@, p) == ciphertext@ && p.len() <= P_MAX
                ==> opt_bytes(r) == Some(p),
{
    let cipher = Aes256Gcm::new(Key::<Aes256Gcm>::from_slice(key));
    cipher.decrypt(Nonce::from_slice(nonce), ciphertext.as_slice()).ok()
}

/// Calls `Aes256Gcm::generate_nonce` with the operating system's random source.
/// Only the length of the nonce is claimed.
#[verifier::external_body]
fn fresh_nonce() -> (r: Vec<u8>)
    ensures
        r@.len() == NONCE_LEN,
{
    Aes256Gcm::generate_nonce(&mut OsRng).to_vec()
}

/// Calls `Aes256Gcm::generate_key` with the operating system's random source.
/// Only the length of the key is claimed.
#[verifier::external_body]
fn fresh_key() -> (r: Vec<u8>)
    ensures
        r@.len() == KEY_LEN,
{
    Aes256Gcm::generate_key(&mut OsRng).to_vec()
}

/// Calls `Engine::encode` of base64's `STANDARD` engine.  The crate panics only
/// when the encoded length overflows `usize`.
#[verifier::external_body]
fn b64_encode(bytes: &Vec<u8>) -> (r: String)
    requires
        bytes@.len() <= usize::MAX / 2,
    ensures
        r@ == base64_encode(bytes@),
{
    general_purpose::STANDARD.encode(bytes)
}

/// Calls `Engine::decode` of base64's `STANDARD` engine.  Its result is named
/// `base64_decoded`; decoding undoes encoding.
#[verifier::external_body]
fn b64_decode(text: &str) -> (r: Option<Vec<u8>>)
    ensures
        opt_bytes(r) == base64_decoded(text@),
        forall|b: Seq<u8>|
            text@ == #[trigger] base64_encode(b) ==> opt_bytes(r) == Some(b),
{
    general_purpose::STANDARD.decode(text).ok()
}

/// Calls std `String::from_utf8`, which succeeds exactly on valid UTF-8 and then
/// holds the decoded characters.
#[verifier::external_body]
fn string_from_utf8(bytes: Vec<u8>) -> (r: Option<String>)
    ensures
        r is Some <==> valid_utf8(bytes@),
        r matches Some(s) ==> s@ == decode_utf8(bytes@),
{
    String::from_utf8(bytes).ok()
}

/// The UTF-8 bytes of `s`.
fn utf8_bytes(s: &str) -> (r: Vec<u8>)
    ensures
        r@ == encode_utf8(s@),
{
    let b = s.as_bytes();
    let mut r: Vec<u8> = Vec::new();
    let mut i: usize = 0;
    while i < b.len()
        invariant
            i <= b@.len(),
            b@ == encode_utf8(s@),
            r@ == b@.take(i as int),
        decreases b@.len() - i,
    {
        r.push(b[i]);
        assert(b@.take(i + 1) =~= b@.take(i as int).push(b@[i as int]));
        i = i + 1;
    }
    assert(b@.take(b@.len() as int) =~= b@);
    r
}

/// `a` followed by `b`.
fn append_bytes(a: &Vec<u8>, b: &Vec<u8>) -> (r: Vec<u8>)
    ensures
        r@ == a@ + b@,
{
    let mut r: Vec<u8> = Vec::new();
    let mut i: usize = 0;
    while i < a.len()
        invariant
            i <= a@.len(),
            r@ == a@.take(i as int),
        decreases a@.len() - i,
    {
        r.push(a[i]);
        assert(a@.take(i + 1) =~= a@.take(i as int).push(a@[i as int]));
        i = i + 1;
    }
    let mut j: usize = 0;
    assert(a@.take(a@.len() as int) =~= a@);
    while j < b.len()
        invariant
            j <= b@.len(),
            r@ == a@ + b@.take(j as int),
        decreases b@.len() - j,
    {
        r.push(b[j]);
        assert(b@.take(j + 1) =~= b@.take(j as int).push(b@[j as int]));
        assert(a@ + b@.take(j + 1) =~= (a@ + b@.take(j as int)).push(b@[j as int]));
        j = j + 1;
    }
    assert(b@.take(b@.len() as int) =~= b@);
    r
}

/// The bytes of `v` from `lo` up to `hi`.
fn byte_range(v: &Vec<u8>, lo: usize, hi: usize) -> (r: Vec<u8>)
    requires
        lo <= hi <= v@.len(),
    ensures
        r@ == v@.subrange(lo as int, hi as int),
{
    let mut r: Vec<u8> = Vec::new();
    let mut i: usize = lo;
    while i < hi
        invariant
            lo <= i <= hi <= v@.len(),
            r@ == v@.subrange(lo as int, i as int),
        decreases hi - i,
    {
        r.push(v[i]);
        assert(v@.subrange(lo as int, i + 1) =~= v@.subrange(lo as int, i as int).push(v@[i as int]));
        i = i + 1;
    }
    r
}

/// Seals `data` under `key` with the given nonce.
pub fn encrypt_with_nonce(key: &Vec<u8>, nonce: &Vec<u8>, data: &str) -> (r: Result<String, CryptoError>)
    requires
        key@.len() == KEY_LEN,
        nonce@.len() == NONCE_LEN,
        encode_utf8(data@).len() + NONCE_LEN + 16 <= usize::MAX / 2,
    ensures
        match r {
            Ok(s) => s@ == sealed_text(key@, nonce@, data@),
            Err(e) => e == CryptoError::EncryptFailed,
        },
        r is Ok <==> encode_utf8(data@).len() <= P_MAX,
{
    let bytes = utf8_bytes(data);
    match aes_seal(key, nonce, bytes.as_slice()) {
        None => Err(CryptoError::EncryptFailed),
        Some(ct) => {
            let combined = append_bytes(nonce, &ct);
            Ok(b64_encode(&combined))
        },
    }
}

/// Seals `data` under `key` with a fresh random nonce.  Whatever nonce is
/// drawn, the result is a sealed text of `data` under `key`.
pub fn encrypt(key: &Vec<u8>, data: &str) -> (r: Result<String, CryptoError>)
    requires
        key@.len() == KEY_LEN,
        encode_utf8(data@).len() + NONCE_LEN + 16 <= usize::MAX / 2,
    ensures
        match r {
            Ok(s) => exists|n: Seq<u8>| n.len() == NONCE_LEN && s@ == #[trigger] sealed_text(key@, n, data@),
            Err(e) => e == CryptoError::EncryptFailed,
        },
        r is Ok <==> encode_utf8(data@).len() <= P_MAX,
{
    let nonce = fresh_nonce();
    let r = encrypt_with_nonce(key, &nonce, data);
    proof {
        if r is Ok {
            assert(r->Ok_0@ == sealed_text(key@, nonce@, data@));
        }
    }
    r
}

/// Opens a sealed text with `key`.  A text that `encrypt` produced under the
/// same key opens to the secret that was sealed.
pub fn decrypt(key: &Vec<u8>, encrypted: &str) -> (r: Result<String, CryptoError>)
    requires
        key@.len() == KEY_LEN,
    ensures
        match r {
            Ok(s) => decrypt_outcome(key@, encrypted@) == Ok::<Seq<char>, CryptoError>(s@),
            Err(e) => decrypt_outcome(key@, encrypted@) == Err::<Seq<char>, CryptoError>(e),
        },
        forall|n: Seq<u8>, m: Seq<char>|
            #![trigger sealed_text(key@, n, m)]
            n.len() == NONCE_LEN && encode_utf8(m).len() <= P_MAX && encrypted@ == sealed_text(key@, n, m)
                ==> (r matches Ok(s) && s@ == m),
{
    let decoded = b64_decode(encrypted);
    let r = match decoded {
        None => Err(CryptoError::BadEncoding),
        Some(combined) => {
            if combined.len() < NONCE_LEN {
                Err(CryptoError::TooShort)
            } else {
                let nonce = byte_range(&combined, 0, NONCE_LEN);
                let ct = byte_range(&combined, NONCE_LEN, combined.len());
                assert(nonce@ == combined@.take(NONCE_LEN as int));
                assert(ct@ == combined@.skip(NONCE_LEN as int));
                match aes_open(key, &nonce, &ct) {
                    None => Err(CryptoError::DecryptFailed),
                    Some(p) => match string_from_utf8(p) {
                        None => Err(CryptoError::NotUtf8),
                        Some(s) => Ok(s),
                    },
                }
            }
        },
    };
    proof {
        assert forall|n: Seq<u8>, m: Seq<char>|
            n.len() == NONCE_LEN && encode_utf8(m).len() <= P_MAX && encrypted@ == sealed_text(key@, n, m)
            implies (r matches Ok(s) && s@ == m) by {
            let c = aes256gcm_seal(key@, n, encode_utf8(m));
            assert(encrypted@ == base64_encode(n + c));
            assert((n + c).take(NONCE_LEN as int) =~= n);
            assert((n + c).skip(NONCE_LEN as int) =~= c);
        }
    }
    r
}

/// Checks stored key material: it must be exactly 32 bytes.
pub fn check_key(bytes: Vec<u8>) -> (r: Result<Vec<u8>, CryptoError>)
    ensures
        match r {
            Ok(k) => k@ == bytes@ && bytes@.len() == KEY_LEN,
            Err(e) => e == CryptoError::WrongKeyLength && bytes@.len() != KEY_LEN,
        },
{
    if bytes.len() != KEY_LEN {
        Err(CryptoError::WrongKeyLength)
    } else {
        Ok(bytes)
    }
}

/// The key to use, given what the key file holds (`None` when there is no key
/// file yet): stored bytes are checked for length; with nothing stored a fresh
/// random key is made, which the caller then stores.
pub fn key_from_store(stored: Option<Vec<u8>>) -> (r: Result<Vec<u8>, CryptoError>)
    ensures
        match stored {
            Some(b) => match r {
                Ok(k) => k@ == b@ && b@.len() == KEY_LEN,
                Err(e) => e == CryptoError::WrongKeyLength && b@.len() != KEY_LEN,
            },
            None => r matches Ok(k) && k@.len() == KEY_LEN,
        },
{
    match stored {
        Some(b) => check_key(b),
        None => Ok(fresh_key()),
    }
}

/// The text form of the stored key bytes (whatever their number), for moving
/// the key to another machine.  The bound is the largest allocation there is.
pub fn export_key(key: &Vec<u8>) -> (r: String)
    requires
        key@.len() <= usize::MAX / 2,
    ensures
        r@ == base64_encode(key@),
{
    b64_encode(key)
}

/// Reads a key from its text form: base64 of exactly 32 bytes.  The form that
/// `export_key` gives reads back as the same key.
pub fn import_key(key_base64: &str) -> (r: Result<Vec<u8>, CryptoError>)
    ensures
        match r {
            Ok(k) => base64_decoded(key_base64@) == Some(k@) && k@.len() == KEY_LEN,
            Err(CryptoError::BadEncoding) => base64_decoded(key_base64@) is None,
            Err(CryptoError::WrongKeyLength) => base64_decoded(key_base64@) matches Some(b)
                && b.len() != KEY_LEN,
            Err(_) => false,
        },
        forall|k: Seq<u8>| #![trigger base64_encode(k)]
            k.len() == KEY_LEN && key_base64@ == base64_encode(k) ==> (r matches Ok(d) && d@ == k),
{
    match b64_decode(key_base64) {
        None => Err(CryptoError::BadEncoding),
        Some(b) => check_key(b),
    }
}

} // verus!
