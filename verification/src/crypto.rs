use chacha20poly1305::aead::{Aead, Payload};
use chacha20poly1305::{Key, KeyInit, XChaCha20Poly1305, XNonce};
use rand::RngCore;
use vstd::prelude::*;

use crate::error::{error_text, CoreError};

verus! {

/// Cost parameters of the Argon2id key derivation.
#[derive(Debug, Clone, Copy, PartialEq, Eq, Structural)]
pub struct KdfParams {
    pub mem_cost_kib: u32,
    pub iterations: u32,
    pub parallelism: u32,
}

/// The parameters a new master password is derived with.
pub open spec fn default_kdf_params() -> KdfParams {
    KdfParams { mem_cost_kib: 19_456, iterations: 3, parallelism: 1 }
}

impl Default for KdfParams {
    fn default() -> (r: Self)
        ensures
            r == default_kdf_params(),
    {
        KdfParams { mem_cost_kib: 19_456, iterations: 3, parallelism: 1 }
    }
}

/// A 256-bit key derived from the master password.
pub type MasterKey = [u8; 32];

/// Length of the XChaCha20-Poly1305 key, in bytes.
pub const KEY_LEN: usize = 32;

/// Length of the XChaCha20-Poly1305 nonce, in bytes.
pub const NONCE_LEN: usize = 24;

/// Length of the Poly1305 tag that every ciphertext carries after the message.
pub const TAG_LEN: usize = 16;

/// What Argon2id (version 0x13, 32 bytes of output) derives from a password and a salt
/// under the given memory, iteration and parallelism costs.
pub uninterp spec fn argon2id_key(
    password: Seq<u8>,
    salt: Seq<u8>,
    mem_cost_kib: u32,
    iterations: u32,
    parallelism: u32,
) -> Seq<u8>;

/// Why the argon2 crate refuses a derivation, as its error text: first the cost checks of
/// `Params::new`, then the input checks of `hash_password_into`. `None` when it derives.
pub open spec fn argon2_refusal(
    password_len: nat,
    salt_len: nat,
    mem_cost_kib: u32,
    iterations: u32,
    parallelism: u32,
) -> Option<Seq<char>> {
    if mem_cost_kib < 8 || mem_cost_kib < parallelism * 8 {
        Some("memory cost is too small"@)
    } else if iterations < 1 {
        Some("time cost is too small"@)
    } else if parallelism < 1 {
        Some("not enough threads"@)
    } else if parallelism > 0xFF_FFFF {
        Some("too many threads"@)
    } else if password_len > 0xFFFF_FFFF {
        Some("password is too long"@)
    } else if salt_len < 8 {
        Some("salt is too short"@)
    } else if salt_len > 0xFFFF_FFFF {
        Some("salt is too long"@)
    } else {
        None
    }
}

/// Argon2id through the argon2 crate: `Params::new(m, t, p, None)`, `Argon2::new` with
/// `Algorithm::Argon2id` and `Version::V0x13`, then `hash_password_into` a 32-byte buffer.
/// The contract claims that it fails exactly when one of the crate's checks refuses the
/// costs or the inputs, with that check's error text, and that the key it derives is the
/// value named `argon2id_key`. `Params::new` computes `p * 8` in `u32`, hence the bound.
#[verifier::external_body]
fn argon2id_derive(password: &[u8], salt: &[u8], mem_cost_kib: u32, iterations: u32, parallelism: u32) -> (r:
    Result<[u8; 32], String>)
    requires
        parallelism <= 0x1FFF_FFFF,
    ensures
        r is Ok <==> argon2_refusal(password@.len(), salt@.len(), mem_cost_kib, iterations, parallelism)
            is None,
        r matches Ok(k) ==> k@ == argon2id_key(password@, salt@, mem_cost_kib, iterations, parallelism),
        r matches Err(e) ==> argon2_refusal(password@.len(), salt@.len(), mem_cost_kib, iterations, parallelism)
            == Some(e@),
{
    let params = argon2::Params::new(mem_cost_kib, iterations, parallelism, None).map_err(|e| e.to_string())?;
    let hasher = argon2::Argon2::new(argon2::Algorithm::Argon2id, argon2::Version::V0x13, params);
    let mut key = [0u8; 32];
    hasher.hash_password_into(password, salt, &mut key).map_err(|e| e.to_string())?;
    Ok(key)
}

/// Derive the master key from a password with Argon2id.
pub fn derive_key(password: &[u8], salt: &[u8], params: &KdfParams) -> (r: Result<MasterKey, CoreError>)
    requires
        params.parallelism <= 0x1FFF_FFFF,
    ensures
        r is Ok <==> argon2_refusal(password@.len(), salt@.len(), params.mem_cost_kib, params.iterations,
            params.parallelism) is None,
        r matches Ok(k) ==> k@ == argon2id_key(password@, salt@, params.mem_cost_kib, params.iterations,
            params.parallelism),
        r matches Err(e) ==> e is Crypto && error_text(e) == argon2_refusal(password@.len(), salt@.len(),
            params.mem_cost_kib, params.iterations, params.parallelism),
{
    match argon2id_derive(password, salt, params.mem_cost_kib, params.iterations, params.parallelism) {
        Ok(key) => Ok(key),
        Err(text) => Err(CoreError::Crypto(text)),
    }
}

/// `N` bytes from the operating system's random source (`rand::rngs::OsRng`).
/// Nothing is promised of their values.
#[verifier::external_body]
pub fn random_bytes<const N: usize>() -> [u8; N] {
    let mut buf = [0u8; N];
    rand::rngs::OsRng.fill_bytes(&mut buf);
    buf
}

/// What XChaCha20-Poly1305 produces for a message: the encrypted message followed by its tag.
pub uninterp spec fn xchacha20poly1305_seal(key: Seq<u8>, nonce: Seq<u8>, aad: Seq<u8>, message: Seq<u8>) -> Seq<
    u8,
>;

/// What XChaCha20-Poly1305 recovers from a ciphertext: `None` when the tag does not
/// authenticate the ciphertext under the key, nonce and associated data.
pub uninterp spec fn xchacha20poly1305_open(key: Seq<u8>, nonce: Seq<u8>, aad: Seq<u8>, ciphertext: Seq<
    u8,
>) -> Option<Seq<u8>>;

/// Whether a message is short enough for the cipher: fewer than `u32::MAX` 64-byte blocks.
pub open spec fn message_fits(len: nat) -> bool {
    len / 64 < 0xFFFF_FFFF
}

/// The error text of the aead crate's `Error`.
pub open spec fn aead_error_text() -> Seq<char> {
    "aead::Error"@
}

/// `Aead::encrypt` of `XChaCha20Poly1305` (chacha20poly1305 crate). `Key::from_slice` and
/// `XNonce::from_slice` assert the lengths. The contract claims that it fails only for a
/// message of `u32::MAX` blocks or more, with the aead error text; that the ciphertext is
/// the named value, 16 bytes longer than the message; and that decrypting it under the same
/// key, nonce and associated data gives the message back.
#[verifier::external_body]
fn xchacha_seal(key: &[u8], nonce: &[u8], aad: &[u8], message: &[u8]) -> (r: Result<Vec<u8>, String>)
    requires
        key@.len() == KEY_LEN,
        nonce@.len() == NONCE_LEN,
    ensures
        r is Ok <==> message_fits(message@.len()),
        r matches Ok(c) ==> c@ == xchacha20poly1305_seal(key@, nonce@, aad@, message@) && c@.len()
            == message@.len() + TAG_LEN && xchacha20poly1305_open(key@, nonce@, aad@, c@) == Some(
            message@,
        ),
        r matches Err(e) ==> e@ == aead_error_text(),
{
    let cipher = XChaCha20Poly1305::new(Key::from_slice(key));
    cipher.encrypt(XNonce::from_slice(nonce), Payload { msg: message, aad }).map_err(|e| e.to_string())
}

/// `Aead::decrypt` of `XChaCha20Poly1305`. The contract claims that it gives the value
/// named `xchacha20poly1305_open`, which is `None` for a ciphertext shorter than the tag
/// and otherwise 16 bytes shorter than the ciphertext.
#[verifier::external_body]
fn xchacha_open(key: &[u8], nonce: &[u8], aad: &[u8], ciphertext: &[u8]) -> (r: Option<Vec<u8>>)
    requires
        key@.len() == KEY_LEN,
        nonce@.len() == NONCE_LEN,
    ensures
        match r {
            Some(p) => xchacha20poly1305_open(key@, nonce@, aad@, ciphertext@) == Some(p@),
            None => xchacha20poly1305_open(key@, nonce@, aad@, ciphertext@) is None,
        },
        ciphertext@.len() < TAG_LEN ==> r is None,
        r matches Some(p) ==> p@.len() + TAG_LEN == ciphertext@.len(),
{
    let cipher = XChaCha20Poly1305::new(Key::from_slice(key));
    cipher.decrypt(XNonce::from_slice(nonce), Payload { msg: ciphertext, aad }).ok()
}

/// Encrypt `plaintext` with XChaCha20-Poly1305, binding `aad` to it.
pub fn encrypt(key: &[u8], nonce: &[u8], aad: &[u8], plaintext: &[u8]) -> (r: Result<Vec<u8>, CoreError>)
    requires
        key@.len() == KEY_LEN,
        nonce@.len() == NONCE_LEN,
    ensures
        r is Ok <==> message_fits(plaintext@.len()),
        r matches Ok(c) ==> c@ == xchacha20poly1305_seal(key@, nonce@, aad@, plaintext@) && c@.len()
            == plaintext@.len() + TAG_LEN,
        r matches Ok(c) ==> xchacha20poly1305_open(key@, nonce@, aad@, c@) == Some(plaintext@),
        r matches Err(e) ==> e is Crypto && error_text(e) == Some(aead_error_text()),
{
    match xchacha_seal(key, nonce, aad, plaintext) {
        Ok(c) => Ok(c),
        Err(text) => Err(CoreError::Crypto(text)),
    }
}

/// Decrypt a ciphertext made by `encrypt`; any failure to authenticate it is
/// `DecryptionFailed`.
pub fn decrypt(key: &[u8], nonce: &[u8], aad: &[u8], ciphertext: &[u8]) -> (r: Result<Vec<u8>, CoreError>)
    requires
        key@.len() == KEY_LEN,
        nonce@.len() == NONCE_LEN,
    ensures
        match xchacha20poly1305_open(key@, nonce@, aad@, ciphertext@) {
            Some(p) => r matches Ok(v) && v@ == p,
            None => r == Err::<Vec<u8>, CoreError>(CoreError::DecryptionFailed),
        },
{
    match xchacha_open(key, nonce, aad, ciphertext) {
        Some(p) => Ok(p),
        None => Err(CoreError::DecryptionFailed),
    }
}

} // verus!
