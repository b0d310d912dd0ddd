use aes_gcm::aead::{Aead, KeyInit};
use aes_gcm::{Aes256Gcm, Nonce};
use vstd::prelude::*;
use vstd::utf8::{decode_utf8, encode_utf8, valid_utf8};

use crate::config::SecretBackend;
use crate::crypto::{aead_error_text, random_bytes};
use crate::error::{error_text, CoreError};
use crate::secret::{base64_decode, base64_encode, base64_standard_decoded, string_from_utf8, utf8_error_text};
use crate::text::{chars_of, concat2, owned, string_from_chars, trim, trim_chars};

verus! {

/// Where the file-key backend keeps its key, and how secrets are stored.
#[derive(Debug, Clone, PartialEq, Eq)]
pub struct SecretStore {
    pub key_path: String,
    pub backend: SecretBackend,
    pub credential_target: String,
}

/// Length of the AES-GCM nonce at the front of a file-key blob, in bytes.
pub const GCM_NONCE_LEN: usize = 12;

/// What AES-256-GCM produces for a message (no associated data): the encrypted message
/// followed by its 16-byte tag.
pub uninterp spec fn aes256gcm_seal(key: Seq<u8>, nonce: Seq<u8>, message: Seq<u8>) -> Seq<u8>;

/// What AES-256-GCM recovers from a ciphertext: `None` when the tag does not authenticate it.
pub uninterp spec fn aes256gcm_open(key: Seq<u8>, nonce: Seq<u8>, ciphertext: Seq<u8>) -> Option<Seq<u8>>;

/// The largest message AES-GCM encrypts, in bytes.
pub open spec fn gcm_message_limit() -> nat {
    0x10_0000_0000
}

/// `Aead::encrypt` of `Aes256Gcm` (aes-gcm crate) after `KeyInit::new_from_slice`;
/// `Nonce::from_slice` asserts the nonce length. The contract claims that it fails only for
/// a message longer than 2^36 bytes, with the aead error text; that the ciphertext is the
/// named value, 16 bytes longer than the message; and that decrypting it with the same key
/// and nonce gives the message back.
#[verifier::external_body]
fn gcm_seal(key: &[u8], nonce: &[u8], message: &[u8]) -> (r: Result<Vec<u8>, String>)
    requires
        key@.len() == 32,
        nonce@.len() == GCM_NONCE_LEN,
    ensures
        r is Ok <==> message@.len() <= gcm_message_limit(),
        r matches Ok(c) ==> c@ == aes256gcm_seal(key@, nonce@, message@) && c@.len() == message@.len() + 16
            && aes256gcm_open(key@, nonce@, c@) == Some(message@),
        r matches Err(e) ==> e@ == aead_error_text(),
{
    let cipher = Aes256Gcm::new_from_slice(key).map_err(|e| e.to_string())?;
    cipher.encrypt(Nonce::from_slice(nonce), message).map_err(|e| e.to_string())
}

/// `Aead::decrypt` of `Aes256Gcm`. The contract claims the value named `aes256gcm_open`.
#[verifier::external_body]
fn gcm_open(key: &[u8], nonce: &[u8], ciphertext: &[u8]) -> (r: Option<Vec<u8>>)
    requires
        key@.len() == 32,
        nonce@.len() == GCM_NONCE_LEN,
    ensures
        match r {
            Some(p) => aes256gcm_open(key@, nonce@, ciphertext@) == Some(p@),
            None => aes256gcm_open(key@, nonce@, ciphertext@) is None,
        },
{
    let cipher = Aes256Gcm::new_from_slice(key).ok()?;
    cipher.decrypt(Nonce::from_slice(nonce), ciphertext).ok()
}

/// A new key file's text: 32 random bytes in standard base64.
pub fn new_key_text() -> (r: String)
    ensures
        base64_standard_decoded(r@) matches Ok(k) && k.len() == 32,
{
    let key = random_bytes::<32>();
    base64_encode(key.as_slice())
}

/// Reads the key from a key file's text: standard base64 of 32 bytes, surrounding
/// whitespace ignored.
pub fn key_from_text(text: &str) -> (r: Result<Vec<u8>, CoreError>)
    ensures
        match base64_standard_decoded(trim(text@)) {
            Ok(k) => if k.len() == 32 {
                r matches Ok(x) && x@ == k
            } else {
                r matches Err(e) && e is Crypto && error_text(e) == Some("invalid key length"@)
            },
            Err(t) => r matches Err(e) && e is Crypto && error_text(e) == Some("failed to decode key: "@ + t),
        },
{
    let trimmed = string_from_chars(&trim_chars(&chars_of(text)));
    match base64_decode(trimmed.as_str()) {
        Err(t) => {
            let m = concat2("failed to decode key: ", t.as_str());
            proof {
                reveal_strlit("failed to decode key: ");
            }
            Err(CoreError::Crypto(m))
        },
        Ok(k) => if k.len() != 32 {
            let m = owned("invalid key length");
            proof {
                reveal_strlit("invalid key length");
            }
            Err(CoreError::Crypto(m))
        } else {
            Ok(k)
        },
    }
}

/// Whether `blob` is a file-key blob that opens under `key` to `message`: standard base64 of
/// a 12-byte nonce followed by an authenticated ciphertext of the message.
pub open spec fn file_key_sealed(key: Seq<u8>, message: Seq<u8>, blob: Seq<char>) -> bool {
    base64_standard_decoded(blob) matches Ok(data) && data.len() >= GCM_NONCE_LEN + 16 && aes256gcm_open(
        key,
        data.take(GCM_NONCE_LEN as int),
        data.skip(GCM_NONCE_LEN as int),
    ) == Some(message)
}

/// Encrypt with the file key: AES-256-GCM under a fresh nonce, the nonce and the ciphertext
/// together in standard base64.
pub fn encrypt_file_key(key: &Vec<u8>, plaintext: &[u8]) -> (r: Result<String, CoreError>)
    requires
        key@.len() == 32,
        plaintext@.len() <= usize::MAX / 2,
    ensures
        r is Ok <==> plaintext@.len() <= gcm_message_limit(),
        r matches Ok(t) ==> file_key_sealed(key@, plaintext@, t@),
        r matches Err(e) ==> e is Crypto && error_text(e) == Some("encrypt: "@ + aead_error_text()),
{
    let nonce = random_bytes::<12>();
    let ciphertext = match gcm_seal(key.as_slice(), nonce.as_slice(), plaintext) {
        Ok(c) => c,
        Err(t) => {
            let m = concat2("encrypt: ", t.as_str());
            proof {
                reveal_strlit("encrypt: ");
            }
            return Err(CoreError::Crypto(m));
        },
    };
    let mut blob = vstd::slice::slice_to_vec(nonce.as_slice());
    let ghost n = blob@;
    let mut rest = ciphertext;
    let ghost c = rest@;
    blob.append(&mut rest);
    proof {
        assert(blob@ =~= n + c);
        assert(blob@.take(12) =~= n);
        assert(blob@.skip(12) =~= c);
    }
    Ok(base64_encode(blob.as_slice()))
}

/// What opening a file-key blob gives: the text, or the error's message.
pub open spec fn file_key_opened(key: Seq<u8>, blob: Seq<char>) -> Result<Seq<char>, Seq<char>> {
    match base64_standard_decoded(blob) {
        Err(t) => Err("decode: "@ + t),
        Ok(data) => if data.len() < GCM_NONCE_LEN + 1 {
            Err("ciphertext too short"@)
        } else {
            match aes256gcm_open(key, data.take(GCM_NONCE_LEN as int), data.skip(GCM_NONCE_LEN as int)) {
                None => Err("decrypt: "@ + aead_error_text()),
                Some(p) => if valid_utf8(p) {
                    Ok(decode_utf8(p))
                } else {
                    Err("utf8: "@ + utf8_error_text(p))
                },
            }
        },
    }
}

/// Decrypt a file-key blob into text; every failure is a crypto error with its message.
pub fn decrypt_file_key(key: &Vec<u8>, ciphertext_b64: &str) -> (r: Result<String, CoreError>)
    requires
        key@.len() == 32,
    ensures
        match file_key_opened(key@, ciphertext_b64@) {
            Ok(t) => r matches Ok(x) && x@ == t,
            Err(m) => r matches Err(e) && e is Crypto && error_text(e) == Some(m),
        },
{
    proof {
        reveal_strlit("decode: ");
        reveal_strlit("ciphertext too short");
        reveal_strlit("decrypt: ");
        reveal_strlit("utf8: ");
    }
    let data = match base64_decode(ciphertext_b64) {
        Ok(d) => d,
        Err(t) => return Err(CoreError::Crypto(concat2("decode: ", t.as_str()))),
    };
    if data.len() < 13 {
        return Err(CoreError::Crypto(owned("ciphertext too short")));
    }
    let nonce = crate::text::slice_bytes(&data, 0, 12);
    let body = crate::text::slice_bytes(&data, 12, data.len());
    let plaintext = match gcm_open(key.as_slice(), nonce.as_slice(), body.as_slice()) {
        Some(p) => p,
        None => {
            let m = concat2("decrypt: ", "aead::Error");
            proof {
                reveal_strlit("aead::Error");
            }
            return Err(CoreError::Crypto(m));
        },
    };
    match string_from_utf8(plaintext) {
        Ok(t) => Ok(t),
        Err(e) => Err(CoreError::Crypto(concat2("utf8: ", e.as_str()))),
    }
}

/// A blob made by `encrypt_file_key` from a text opens, under the same key, to that text.
pub proof fn lemma_file_key_round_trip(key: Seq<u8>, text: Seq<char>, blob: Seq<char>)
    requires
        file_key_sealed(key, encode_utf8(text), blob),
    ensures
        file_key_opened(key, blob) == Ok::<Seq<char>, Seq<char>>(text),
{
    vstd::utf8::encode_utf8_valid_utf8(text);
    vstd::utf8::encode_utf8_decode_utf8(text);
}

/// Why a backend cannot be used on this platform, if it cannot.
pub open spec fn backend_refusal(backend: SecretBackend, windows: bool) -> Option<Seq<char>> {
    if windows {
        None
    } else {
        match backend {
            SecretBackend::FileKey => None,
            SecretBackend::WindowsDpapi => Some("DPAPI backend is only available on Windows"@),
            SecretBackend::WindowsCredentialManager => Some(
                "Windows Credential Manager backend is only available on Windows"@,
            ),
        }
    }
}

/// Refuses a Windows-only backend elsewhere.
pub fn ensure_backend_available(backend: SecretBackend, windows: bool) -> (r: Result<(), CoreError>)
    ensures
        match backend_refusal(backend, windows) {
            None => r is Ok,
            Some(m) => r matches Err(e) && e is Crypto && error_text(e) == Some(m),
        },
{
    proof {
        reveal_strlit("DPAPI backend is only available on Windows");
        reveal_strlit("Windows Credential Manager backend is only available on Windows");
    }
    if windows {
        return Ok(());
    }
    match backend {
        SecretBackend::FileKey => Ok(()),
        SecretBackend::WindowsDpapi => Err(CoreError::Crypto(owned("DPAPI backend is only available on Windows"))),
        SecretBackend::WindowsCredentialManager => Err(
            CoreError::Crypto(owned("Windows Credential Manager backend is only available on Windows")),
        ),
    }
}

} // verus!
