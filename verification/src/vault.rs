//! The encrypted vault: AES-256-GCM records `[ nonce (12) | ciphertext ]`,
//! and the vault key as it is kept in the Keychain (lower-case hex).

use vstd::prelude::*;
use vstd::string::*;
use aes_gcm::aead::{Aead, AeadCore, KeyInit, OsRng};

verus! {

/// Nonce length of AES-256-GCM.
pub const NONCE_LEN: usize = 12;

/// Largest plaintext AES-256-GCM accepts (2^36 bytes).
pub open spec fn aes_plaintext_max() -> nat {
    0x10_0000_0000
}

/// The ciphertext (with its 16-byte tag appended) that AES-256-GCM makes
/// of `plaintext` under `key` and `nonce`, with no associated data.
pub uninterp spec fn aes256gcm_seal(key: Seq<u8>, nonce: Seq<u8>, plaintext: Seq<u8>) -> Seq<u8>;

/// What AES-256-GCM decryption of `ciphertext` (tag appended) under `key`
/// and `nonce` gives: the plaintext, or nothing when authentication fails.
pub uninterp spec fn aes256gcm_open(key: Seq<u8>, nonce: Seq<u8>, ciphertext: Seq<u8>) -> Option<Seq<u8>>;

pub open spec fn opt_bytes_view(o: Option<Vec<u8>>) -> Option<Seq<u8>> {
    match o {
        Some(v) => Some(v@),
        None => None,
    }
}

/// `Aes256Gcm::encrypt`: encrypts `plaintext`, appending the 16-byte tag.
/// It fails exactly for a plaintext longer than 2^36 bytes. Decrypting what
/// it produced under the same key and nonce gives the plaintext back.
#[verifier::external_body]
fn aes_encrypt(key: &[u8; 32], nonce: &[u8; 12], plaintext: &[u8]) -> (r: Option<Vec<u8>>)
    ensures
        r is Some <==> plaintext@.len() <= aes_plaintext_max(),
        r matches Some(c) ==> c@ == aes256gcm_seal(key@, nonce@, plaintext@) && c@.len()
            == plaintext@.len() + 16 && aes256gcm_open(key@, nonce@, c@) == Some(plaintext@),
{
    let cipher = aes_gcm::Aes256Gcm::new(aes_gcm::Key::<aes_gcm::Aes256Gcm>::from_slice(key));
    cipher.encrypt(aes_gcm::Nonce::from_slice(nonce), plaintext).ok()
}

/// `Aes256Gcm::decrypt`: authenticates and decrypts `ciphertext`. A
/// ciphertext that sealing produced (for a plaintext AES-GCM accepts) under
/// the same key and nonce gives that plaintext back.
#[verifier::external_body]
fn aes_decrypt(key: &[u8; 32], nonce: &[u8; 12], ciphertext: &[u8]) -> (r: Option<Vec<u8>>)
    ensures
        opt_bytes_view(r) == aes256gcm_open(key@, nonce@, ciphertext@),
        forall|p: Seq<u8>|
            p.len() <= aes_plaintext_max() && ciphertext@ == aes256gcm_seal(key@, nonce@, p)
                ==> opt_bytes_view(r) == Some(p),
{
    let cipher = aes_gcm::Aes256Gcm::new(aes_gcm::Key::<aes_gcm::Aes256Gcm>::from_slice(key));
    cipher.decrypt(aes_gcm::Nonce::from_slice(nonce), ciphertext).ok()
}

/// `Aes256Gcm::generate_nonce(OsRng)`: a fresh random 12-byte nonce.
/// Nothing is promised of its value.
#[verifier::external_body]
fn random_nonce() -> (r: [u8; 12]) {
    let n = aes_gcm::Aes256Gcm::generate_nonce(&mut OsRng);
    let mut out = [0u8; 12];
    out.copy_from_slice(&n);
    out
}

/// `Aes256Gcm::generate_key(OsRng)`: a fresh random 32-byte key. Nothing
/// is promised of its value.
#[verifier::external_body]
fn random_key() -> (r: [u8; 32]) {
    let k = aes_gcm::Aes256Gcm::generate_key(&mut OsRng);
    let mut out = [0u8; 32];
    out.copy_from_slice(&k);
    out
}

/// Why a vault operation failed.
#[derive(Debug, Clone, Copy, PartialEq, Eq, Structural)]
pub enum VaultError {
    /// Encryption refused the plaintext.
    EncryptFailed,
    /// The record is too short to hold a nonce and any ciphertext.
    TooShort,
    /// Wrong key or corrupt data.
    DecryptFailed,
}

/// Encrypts a serialised entry under `key` with a fresh random nonce.
/// The record is the nonce followed by the ciphertext.
pub fn encrypt_entry(key: &[u8; 32], plaintext: &[u8]) -> (r: Result<Vec<u8>, VaultError>)
    ensures
        r is Ok <==> plaintext@.len() <= aes_plaintext_max(),
        r matches Err(e) ==> e == VaultError::EncryptFailed,
        r matches Ok(out) ==> out@.len() == NONCE_LEN + plaintext@.len() + 16
            && out@.skip(12) == aes256gcm_seal(key@, out@.take(12), plaintext@)
            && spec_decrypt_entry(key@, out@) == Ok::<Seq<u8>, VaultError>(plaintext@),
{
    let nonce = random_nonce();
    let ct = match aes_encrypt(key, &nonce, plaintext) {
        Some(c) => c,
        None => return Err(VaultError::EncryptFailed),
    };
    let mut out: Vec<u8> = Vec::new();
    let mut i: usize = 0;
    while i < NONCE_LEN
        invariant
            0 <= i <= 12,
            out@ == nonce@.take(i as int),
        decreases 12 - i,
    {
        out.push(nonce[i]);
        i += 1;
        assert(out@ =~= nonce@.take(i as int));
    }
    assert(nonce@.take(12) =~= nonce@);
    let mut j: usize = 0;
    while j < ct.len()
        invariant
            0 <= j <= ct.len(),
            out@ == nonce@ + ct@.take(j as int),
        decreases ct.len() - j,
    {
        out.push(ct[j]);
        j += 1;
        assert(out@ =~= nonce@ + ct@.take(j as int));
    }
    assert(ct@.take(ct.len() as int) =~= ct@);
    assert(out@.take(12) =~= nonce@);
    assert(out@.skip(12) =~= ct@);
    Ok(out)
}

/// What decrypting the vault record `bytes` under `key` gives: too short
/// for a nonce and a ciphertext, an authentication failure, or the
/// plaintext.
pub open spec fn spec_decrypt_entry(key: Seq<u8>, bytes: Seq<u8>) -> Result<Seq<u8>, VaultError> {
    if bytes.len() <= NONCE_LEN {
        Err(VaultError::TooShort)
    } else {
        match aes256gcm_open(key, bytes.take(12), bytes.skip(12)) {
            None => Err(VaultError::DecryptFailed),
            Some(p) => Ok(p),
        }
    }
}

pub open spec fn result_bytes_view(r: Result<Vec<u8>, VaultError>) -> Result<Seq<u8>, VaultError> {
    match r {
        Ok(v) => Ok(v@),
        Err(e) => Err(e),
    }
}

/// Decrypts a vault record made by [`encrypt_entry`] back into the
/// serialised entry.
pub fn decrypt_entry(key: &[u8; 32], bytes: &[u8]) -> (r: Result<Vec<u8>, VaultError>)
    ensures
        result_bytes_view(r) == spec_decrypt_entry(key@, bytes@),
        forall|p: Seq<u8>|
            p.len() <= aes_plaintext_max() && bytes@.len() > NONCE_LEN
                && bytes@.skip(12) == aes256gcm_seal(key@, bytes@.take(12), p)
                ==> (r matches Ok(v) && v@ == p),
{
    if bytes.len() <= NONCE_LEN {
        return Err(VaultError::TooShort);
    }
    let mut nonce = [0u8; 12];
    let mut i: usize = 0;
    while i < NONCE_LEN
        invariant
            0 <= i <= 12,
            12 < bytes@.len(),
            forall|k: int| 0 <= k < i ==> nonce@[k] == bytes@[k],
        decreases 12 - i,
    {
        nonce.set(i, bytes[i]);
        i += 1;
    }
    assert(nonce@ =~= bytes@.take(12));
    let mut ct: Vec<u8> = Vec::new();
    let mut j: usize = NONCE_LEN;
    while j < bytes.len()
        invariant
            12 <= j <= bytes@.len(),
            ct@ == bytes@.subrange(12, j as int),
        decreases bytes.len() - j,
    {
        ct.push(bytes[j]);
        j += 1;
        assert(ct@ =~= bytes@.subrange(12, j as int));
    }
    assert(ct@ =~= bytes@.skip(12));
    match aes_decrypt(key, &nonce, ct.as_slice()) {
        Some(p) => Ok(p),
        None => Err(VaultError::DecryptFailed),
    }
}

// ── Key as stored in the Keychain ─────────────────────────────────────────────

/// Value of a hex digit (`0-9`, `a-f`, `A-F`).
pub open spec fn hex_value(c: u8) -> Option<u8> {
    if 48 <= c <= 57 {
        Some((c - 48) as u8)
    } else if 97 <= c <= 102 {
        Some((c - 97 + 10) as u8)
    } else if 65 <= c <= 70 {
        Some((c - 65 + 10) as u8)
    } else {
        None
    }
}

/// What `hex::decode` gives: the bytes that pairs of hex digits spell, or
/// nothing for an odd length or a non-hex character.
pub open spec fn spec_hex_decode(b: Seq<u8>) -> Option<Seq<u8>> {
    if b.len() % 2 == 0 && forall|i: int| 0 <= i < b.len() ==> #[trigger] hex_value(b[i]) is Some {
        Some(Seq::new(b.len() / 2, |i: int| (hex_value(b[2 * i]).unwrap() * 16 + hex_value(b[2 * i + 1]).unwrap()) as u8))
    } else {
        None
    }
}

/// A lower-case hex digit.
pub open spec fn lower_hex_char(d: u8) -> char {
    if d < 10 { ((d + 48) as u8) as char } else { ((d + 87) as u8) as char }
}

/// What `hex::encode` gives: two lower-case hex digits per byte, high
/// nibble first.
pub open spec fn spec_hex_encode(b: Seq<u8>) -> Seq<char> {
    Seq::new(2 * b.len(), |i: int| if i % 2 == 0 { lower_hex_char(b[i / 2] / 16) } else { lower_hex_char(b[i / 2] % 16) })
}

/// `hex::decode`: decodes a hex string (either case) into bytes.
#[verifier::external_body]
fn hex_decode(s: &[u8]) -> (r: Option<Vec<u8>>)
    ensures
        opt_bytes_view(r) == spec_hex_decode(s@),
{
    hex::decode(s).ok()
}

/// `hex::encode`: encodes bytes as lower-case hex.
#[verifier::external_body]
fn hex_encode(b: &[u8]) -> (r: String)
    ensures
        r@ == spec_hex_encode(b@),
{
    hex::encode(b)
}

/// Why the stored key could not be used.
#[derive(Debug, Clone, Copy, PartialEq, Eq, Structural)]
pub enum KeyError {
    /// The stored text is not hex.
    Decode,
    /// It decodes to this many bytes instead of 32.
    WrongLength(usize),
}

/// Decodes the key as stored in the Keychain: hex for exactly 32 bytes.
pub fn key_from_hex(stored: &str) -> (r: Result<[u8; 32], KeyError>)
    ensures
        match spec_hex_decode(stored.spec_bytes()) {
            None => r == Err::<[u8; 32], KeyError>(KeyError::Decode),
            Some(k) => if k.len() == 32 {
                r matches Ok(key) && key@ == k
            } else {
                r == Err::<[u8; 32], KeyError>(KeyError::WrongLength(k.len() as usize))
            },
        },
{
    let bytes = match hex_decode(stored.as_bytes()) {
        Some(b) => b,
        None => return Err(KeyError::Decode),
    };
    if bytes.len() != 32 {
        return Err(KeyError::WrongLength(bytes.len()));
    }
    let mut key = [0u8; 32];
    let mut i: usize = 0;
    while i < 32
        invariant
            0 <= i <= 32,
            bytes@.len() == 32,
            forall|k: int| 0 <= k < i ==> key@[k] == bytes@[k],
        decreases 32 - i,
    {
        key.set(i, bytes[i]);
        i += 1;
    }
    assert(key@ =~= bytes@);
    Ok(key)
}

/// The key as it is stored in the Keychain: lower-case hex.
pub fn key_to_hex(key: &[u8; 32]) -> (r: String)
    ensures
        r@ == spec_hex_encode(key@),
{
    hex_encode(key.as_slice())
}

/// Where the vault key came from.
#[derive(Debug)]
pub enum KeySource {
    /// Read from the Keychain.
    Loaded([u8; 32]),
    /// No key was stored: a fresh one, with the hex to store.
    Created { key: [u8; 32], hex: String },
}

/// Retrieves the vault key from what the Keychain held (`None` when it held
/// no key): a stored key is decoded, and with none stored a fresh random key
/// is generated together with the hex to store for it.
pub fn get_or_create_key(stored: Option<&str>) -> (r: Result<KeySource, KeyError>)
    ensures
        match stored {
            Some(s) => match spec_hex_decode(s.spec_bytes()) {
                None => r == Err::<KeySource, KeyError>(KeyError::Decode),
                Some(k) => if k.len() == 32 {
                    r matches Ok(KeySource::Loaded(key)) && key@ == k
                } else {
                    r == Err::<KeySource, KeyError>(KeyError::WrongLength(k.len() as usize))
                },
            },
            None => r matches Ok(KeySource::Created { key, hex }) && hex@ == spec_hex_encode(key@),
        },
{
    match stored {
        Some(s) => match key_from_hex(s) {
            Ok(k) => Ok(KeySource::Loaded(k)),
            Err(e) => Err(e),
        },
        None => {
            let key = random_key();
            let hex = key_to_hex(&key);
            Ok(KeySource::Created { key, hex })
        },
    }
}

} // verus!

verus! {

proof fn lemma_hex_digit_roundtrip(d: u8)
    requires
        d < 16,
    ensures
        '\0' <= lower_hex_char(d) <= '\u{7f}',
        hex_value(lower_hex_char(d) as u8) == Some(d),
{
}

/// A key written to the Keychain as hex is the key read back from it.
pub proof fn lemma_key_hex_roundtrip(key: Seq<u8>)
    requires
        key.len() == 32,
    ensures
        spec_hex_decode(vstd::utf8::encode_utf8(spec_hex_encode(key))) == Some(key),
{
    let chars = spec_hex_encode(key);
    assert forall|i: int| 0 <= i < chars.len() implies '\0' <= #[trigger] chars[i] <= '\u{7f}' by {
        if i % 2 == 0 {
            lemma_hex_digit_roundtrip(key[i / 2] / 16);
        } else {
            lemma_hex_digit_roundtrip(key[i / 2] % 16);
        }
    }
    vstd::utf8::is_ascii_chars_encode_utf8(chars);
    let b = vstd::utf8::encode_utf8(chars);
    assert forall|i: int| 0 <= i < b.len() implies #[trigger] hex_value(b[i]) is Some by {
        assert(b[i] == chars[i] as u8);
        if i % 2 == 0 {
            lemma_hex_digit_roundtrip(key[i / 2] / 16);
        } else {
            lemma_hex_digit_roundtrip(key[i / 2] % 16);
        }
    }
    assert(b.len() % 2 == 0);
    let decoded = spec_hex_decode(b).unwrap();
    assert forall|i: int| 0 <= i < 32 implies decoded[i] == key[i] by {
        assert(b[2 * i] == chars[2 * i] as u8);
        assert(b[2 * i + 1] == chars[2 * i + 1] as u8);
        assert((2 * i) % 2 == 0);
        assert((2 * i + 1) % 2 == 1);
        assert((2 * i) / 2 == i);
        assert((2 * i + 1) / 2 == i);
        lemma_hex_digit_roundtrip(key[i] / 16);
        lemma_hex_digit_roundtrip(key[i] % 16);
        assert(key[i] / 16 * 16 + key[i] % 16 == key[i]);
    }
    assert(decoded =~= key);
}

} // verus!
