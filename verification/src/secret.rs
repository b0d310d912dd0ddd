use base64::engine::general_purpose::STANDARD as B64;
use base64::Engine as _;
use vstd::prelude::*;
use vstd::utf8::{decode_utf8, encode_utf8, valid_utf8};

use crate::crypto::{
    aead_error_text, argon2_refusal, argon2id_key, decrypt, default_kdf_params, derive_key, encrypt,
    message_fits, random_bytes, xchacha20poly1305_open, xchacha20poly1305_seal, KdfParams, MasterKey,
    NONCE_LEN,
};
use crate::error::{error_text, CoreError};
use crate::id::{
    generate_id, normalize_id, lowercased, validate_id, validate_id_spec, IdError,
};
use crate::import_export::{secret_aad, secret_aad_spec};

verus! {

/// A character of the standard base64 alphabet (RFC 4648): `A`..`Z`, `a`..`z`, `0`..`9`,
/// `+`, `/`.
pub open spec fn base64_char(v: nat) -> char {
    if v < 26 {
        (65 + v) as char
    } else if v < 52 {
        (97 + v - 26) as char
    } else if v < 62 {
        (48 + v - 52) as char
    } else if v == 62 {
        '+'
    } else {
        '/'
    }
}

/// One group of one to three bytes in base64: the 24-bit value they start, cut into four
/// 6-bit characters, the ones past the bytes replaced by `=`.
pub open spec fn base64_group(b: Seq<u8>) -> Seq<char> {
    let b1: nat = if b.len() > 1 {
        b[1] as nat
    } else {
        0
    };
    let b2: nat = if b.len() > 2 {
        b[2] as nat
    } else {
        0
    };
    let n: nat = (b[0] as nat) * 65536 + b1 * 256 + b2;
    let c0 = base64_char(n / 262144);
    let c1 = base64_char((n / 4096) % 64);
    let c2 = if b.len() > 1 {
        base64_char((n / 64) % 64)
    } else {
        '='
    };
    let c3 = if b.len() > 2 {
        base64_char(n % 64)
    } else {
        '='
    };
    seq![c0, c1, c2, c3]
}

/// What the standard base64 engine (with padding) writes for the bytes: each group of three
/// bytes in turn, the last group possibly shorter and padded.
pub open spec fn base64_standard(bytes: Seq<u8>) -> Seq<char>
    decreases bytes.len(),
{
    if bytes.len() == 0 {
        Seq::empty()
    } else if bytes.len() <= 3 {
        base64_group(bytes)
    } else {
        base64_group(bytes.take(3)) + base64_standard(bytes.skip(3))
    }
}

/// What the standard base64 engine reads from a text: the bytes, or the error's text.
pub uninterp spec fn base64_standard_decoded(text: Seq<char>) -> Result<Seq<u8>, Seq<char>>;

/// Whether the standard base64 engine reads `text` as `bytes`.
pub open spec fn base64_decodes_to(text: Seq<char>, bytes: Seq<u8>) -> bool {
    base64_standard_decoded(text) == Ok::<Seq<u8>, Seq<char>>(bytes)
}

/// `Engine::encode` of `base64::engine::general_purpose::STANDARD`. The contract claims the
/// RFC 4648 encoding with padding, and that decoding that text with the same engine gives the
/// bytes back.
/// `encoded_len` must not overflow, hence the bound.
#[verifier::external_body]
pub(crate) fn base64_encode(bytes: &[u8]) -> (r: String)
    requires
        bytes@.len() / 3 * 4 + 4 <= usize::MAX,
    ensures
        r@ == base64_standard(bytes@),
        base64_decodes_to(r@, bytes@),
{
    B64.encode(bytes)
}

/// `Engine::decode` of the standard engine on the text's bytes; an error becomes its text.
/// The contract claims the value named `base64_standard_decoded`.
#[verifier::external_body]
pub(crate) fn base64_decode(text: &str) -> (r: Result<Vec<u8>, String>)
    ensures
        match r {
            Ok(v) => base64_standard_decoded(text@) == Ok::<Seq<u8>, Seq<char>>(v@),
            Err(e) => base64_standard_decoded(text@) == Err::<Seq<u8>, Seq<char>>(e@),
        },
{
    B64.decode(text.as_bytes()).map_err(|e| e.to_string())
}

/// The additional authenticated data of the master check token.
pub const MASTER_CHECK_AAD: &'static str = "master-check";

/// The bytes of the master check token's associated data.
pub open spec fn master_check_aad() -> Seq<u8> {
    encode_utf8(MASTER_CHECK_AAD@)
}

/// An encrypted random value that tells whether a password derives the master key.
#[derive(Debug, Clone, PartialEq, Eq)]
pub struct CheckToken {
    pub nonce: String,
    pub ciphertext: String,
}

/// What is stored about the master password: the salt, the cost parameters and the check
/// token, never the password or the key.
#[derive(Debug, Clone, PartialEq, Eq)]
pub struct MasterState {
    pub salt: Vec<u8>,
    pub params: KdfParams,
    pub check: CheckToken,
}

/// The key a password derives under a state's salt and parameters, or the argon2 refusal.
pub open spec fn state_key(s: MasterState, password: Seq<u8>) -> Result<Seq<u8>, Seq<char>> {
    match argon2_refusal(
        password.len(),
        s.salt@.len(),
        s.params.mem_cost_kib,
        s.params.iterations,
        s.params.parallelism,
    ) {
        Some(t) => Err(t),
        None => Ok(
            argon2id_key(
                password,
                s.salt@,
                s.params.mem_cost_kib,
                s.params.iterations,
                s.params.parallelism,
            ),
        ),
    }
}

/// Whether a stored check nonce can be handed to the cipher: it does not decode, or it
/// decodes to the 24 bytes of a nonce.
pub open spec fn check_nonce_fits(s: MasterState) -> bool {
    match base64_standard_decoded(s.check.nonce@) {
        Ok(n) => n.len() == NONCE_LEN,
        Err(_) => true,
    }
}

/// The outcome of checking a password against a master state.
pub enum KeyCheck {
    /// The password derives this key and the check token opens under it.
    Derived(Seq<u8>),
    /// The key derivation or a decoding refused, with this error text.
    Refused(Seq<char>),
    /// The check token does not open under the derived key.
    NotDecrypted,
    /// The check token opens to nothing.
    Empty,
}

/// What checking `password` against `s` gives: derive the key, decode the token's nonce and
/// ciphertext, and open the ciphertext with the key.
pub open spec fn key_check(s: MasterState, password: Seq<u8>) -> KeyCheck {
    match state_key(s, password) {
        Err(t) => KeyCheck::Refused(t),
        Ok(k) => match base64_standard_decoded(s.check.nonce@) {
            Err(t) => KeyCheck::Refused(t),
            Ok(n) => match base64_standard_decoded(s.check.ciphertext@) {
                Err(t) => KeyCheck::Refused(t),
                Ok(c) => match xchacha20poly1305_open(k, n, master_check_aad(), c) {
                    None => KeyCheck::NotDecrypted,
                    Some(p) => if p.len() == 0 {
                        KeyCheck::Empty
                    } else {
                        KeyCheck::Derived(k)
                    },
                },
            },
        },
    }
}

/// Whether a key result is the outcome of a check.
pub open spec fn key_result_is(r: Result<MasterKey, CoreError>, c: KeyCheck) -> bool {
    match c {
        KeyCheck::Derived(k) => r matches Ok(x) && x@ == k,
        KeyCheck::Refused(t) => r matches Err(e) && e is Crypto && error_text(e) == Some(t),
        KeyCheck::NotDecrypted => r == Err::<MasterKey, CoreError>(CoreError::DecryptionFailed),
        KeyCheck::Empty => r == Err::<MasterKey, CoreError>(CoreError::MasterVerificationFailed),
    }
}

/// Whether `s` and `key` are what creating a master state from `password` gives: a 16-byte
/// salt, the default parameters, the key the password derives, and a check token that
/// opens under that key to 16 bytes.
pub open spec fn created_from(s: MasterState, key: Seq<u8>, password: Seq<u8>) -> bool {
    &&& s.salt@.len() == 16
    &&& s.params == default_kdf_params()
    &&& state_key(s, password) == Ok::<Seq<u8>, Seq<char>>(key)
    &&& base64_standard_decoded(s.check.nonce@) matches Ok(n) && n.len() == NONCE_LEN
    &&& base64_standard_decoded(s.check.ciphertext@) matches Ok(c) && base64_standard_decoded(
        s.check.nonce@,
    ) matches Ok(n) && xchacha20poly1305_open(key, n, master_check_aad(), c) matches Some(p)
        && p.len() == 16
}

impl MasterState {
    /// Create a master state for a password: a random salt, the default parameters and a
    /// check token that encrypts 16 random bytes under the derived key.
    pub fn create(password: &[u8]) -> (r: Result<(MasterState, MasterKey), CoreError>)
        ensures
            r is Ok <==> password@.len() <= 0xFFFF_FFFF,
            r matches Ok((s, k)) ==> created_from(s, k@, password@),
            r matches Err(e) ==> e is Crypto && error_text(e) == Some("password is too long"@),
    {
        let salt_bytes = random_bytes::<16>();
        let salt = vstd::slice::slice_to_vec(salt_bytes.as_slice());
        let params = KdfParams::default();
        let key = match derive_key(password, salt.as_slice(), &params) {
            Ok(k) => k,
            Err(e) => return Err(e),
        };
        let check_plain = random_bytes::<16>();
        let nonce = random_bytes::<24>();
        let aad = MASTER_CHECK_AAD.as_bytes();
        proof {
            reveal_strlit("master-check");
        }
        let ciphertext = match encrypt(key.as_slice(), nonce.as_slice(), aad, check_plain.as_slice()) {
            Ok(c) => c,
            Err(e) => return Err(e),
        };
        let nonce_text = base64_encode(nonce.as_slice());
        let cipher_text = base64_encode(ciphertext.as_slice());
        let state = MasterState {
            salt,
            params,
            check: CheckToken { nonce: nonce_text, ciphertext: cipher_text },
        };
        proof {
            assert(state.salt@ == salt_bytes@);
        }
        Ok((state, key))
    }

    /// Whether the check nonce can be handed to the cipher (see `check_nonce_fits`).
    pub fn nonce_fits(&self) -> (r: bool)
        ensures
            r == check_nonce_fits(*self),
    {
        match base64_decode(self.check.nonce.as_str()) {
            Ok(n) => n.len() == NONCE_LEN,
            Err(_) => true,
        }
    }

    /// Derive the key from `password` and confirm it by opening the check token.
    pub fn load_and_verify(&self, password: &[u8]) -> (r: Result<MasterKey, CoreError>)
        requires
            check_nonce_fits(*self),
            self.params.parallelism <= 0x1FFF_FFFF,
        ensures
            key_result_is(r, key_check(*self, password@)),
    {
        let key = match derive_key(password, self.salt.as_slice(), &self.params) {
            Ok(k) => k,
            Err(e) => return Err(e),
        };
        let nonce_bytes = match base64_decode(self.check.nonce.as_str()) {
            Ok(n) => n,
            Err(t) => return Err(CoreError::Crypto(t)),
        };
        let cipher_bytes = match base64_decode(self.check.ciphertext.as_str()) {
            Ok(c) => c,
            Err(t) => return Err(CoreError::Crypto(t)),
        };
        proof {
            reveal_strlit("master-check");
        }
        let decrypted = match decrypt(
            key.as_slice(),
            nonce_bytes.as_slice(),
            MASTER_CHECK_AAD.as_bytes(),
            cipher_bytes.as_slice(),
        ) {
            Ok(p) => p,
            Err(e) => return Err(e),
        };
        if decrypted.len() == 0 {
            return Err(CoreError::MasterVerificationFailed);
        }
        Ok(key)
    }
}

/// Checking the password a master state was created from gives back the key that creation
/// returned, and the state's check nonce fits the cipher.
pub proof fn lemma_verify_after_create(s: MasterState, key: Seq<u8>, password: Seq<u8>)
    requires
        created_from(s, key, password),
    ensures
        check_nonce_fits(s),
        key_check(s, password) == KeyCheck::Derived(key),
{
}

/// Set up the master password unless one is set already.
pub fn prepare_master(already_set: bool, password: &[u8]) -> (r: Result<(MasterState, MasterKey), CoreError>)
    ensures
        already_set ==> r == Err::<(MasterState, MasterKey), CoreError>(CoreError::MasterAlreadySet),
        !already_set ==> (r is Ok <==> password@.len() <= 0xFFFF_FFFF),
        !already_set ==> (r matches Ok((s, k)) ==> created_from(s, k@, password@)),
{
    if already_set {
        return Err(CoreError::MasterAlreadySet);
    }
    MasterState::create(password)
}

/// Unlock the master key with a password: `MasterNotSet` without a stored state, and
/// `MasterVerificationFailed` for any failure of the check. `None` when the stored check
/// nonce does not fit the cipher (see `check_nonce_fits`), which the cipher cannot take.
pub fn unlock_master(state: Option<&MasterState>, password: &[u8]) -> (r: Option<Result<MasterKey, CoreError>>)
    requires
        state matches Some(s) ==> s.params.parallelism <= 0x1FFF_FFFF,
    ensures
        state is None ==> r == Some(Err::<MasterKey, CoreError>(CoreError::MasterNotSet)),
        state matches Some(s) ==> (r is None <==> !check_nonce_fits(*s)),
        state matches Some(s) ==> (r matches Some(x) ==> match key_check(*s, password@) {
            KeyCheck::Derived(k) => x matches Ok(y) && y@ == k,
            _ => x == Err::<MasterKey, CoreError>(CoreError::MasterVerificationFailed),
        }),
{
    match state {
        None => Some(Err(CoreError::MasterNotSet)),
        Some(s) => {
            if !s.nonce_fits() {
                return None;
            }
            match s.load_and_verify(password) {
                Ok(k) => Some(Ok(k)),
                Err(_) => Some(Err(CoreError::MasterVerificationFailed)),
            }
        },
    }
}

/// A secret's value as stored: the nonce and the ciphertext.
#[derive(Debug, Clone, PartialEq, Eq)]
pub struct SealedSecret {
    pub nonce: Vec<u8>,
    pub ciphertext: Vec<u8>,
}

/// The associated-data bytes that bind a secret's ciphertext to its id and kind.
pub open spec fn secret_aad_bytes(secret_id: Seq<char>, kind: Seq<char>) -> Seq<u8> {
    encode_utf8(secret_aad_spec(secret_id, kind))
}

/// The identifier a new secret gets: the requested one lower-cased, or a fresh `s_` id.
pub fn new_secret_id(requested: Option<&str>) -> (r: Result<String, CoreError>)
    ensures
        requested matches Some(id) ==> match validate_id_spec(lowercased(id@)) {
            Ok(_) => r matches Ok(v) && v@ == lowercased(id@),
            Err(e) => r == Err::<String, CoreError>(CoreError::InvalidId(e)),
        },
        requested is None ==> (r matches Ok(v) && validate_id_spec(v@) == Ok::<(), IdError>(())
            && v@.len() == 10 && v@.take(2) == "s_"@),
{
    let secret_id = match requested {
        Some(id) => normalize_id(id),
        None => {
            proof {
                reveal_strlit("s_");
            }
            let fresh = generate_id("s_");
            proof {
                reveal_strlit("s_");
            }
            fresh
        },
    };
    match validate_id(secret_id.as_str()) {
        Ok(()) => Ok(secret_id),
        Err(e) => Err(CoreError::InvalidId(e)),
    }
}

/// Encrypt a secret's value under the master key with a fresh nonce, bound to its id and kind.
pub fn seal_secret(master: &MasterKey, secret_id: &str, kind: &str, value: &str) -> (r: Result<SealedSecret, CoreError>)
    ensures
        r is Ok <==> message_fits(encode_utf8(value@).len()),
        r matches Ok(s) ==> s.nonce@.len() == NONCE_LEN && s.ciphertext@ == xchacha20poly1305_seal(
            master@,
            s.nonce@,
            secret_aad_bytes(secret_id@, kind@),
            encode_utf8(value@),
        ),
        r matches Ok(s) ==> xchacha20poly1305_open(
            master@,
            s.nonce@,
            secret_aad_bytes(secret_id@, kind@),
            s.ciphertext@,
        ) == Some(encode_utf8(value@)),
        r matches Err(e) ==> e is Crypto && error_text(e) == Some(aead_error_text()),
{
    let aad = secret_aad(secret_id, kind);
    let nonce = random_bytes::<24>();
    let ciphertext = match encrypt(master.as_slice(), nonce.as_slice(), aad.as_str().as_bytes(), value.as_bytes()) {
        Ok(c) => c,
        Err(e) => return Err(e),
    };
    let nonce_vec = vstd::slice::slice_to_vec(nonce.as_slice());
    Ok(SealedSecret { nonce: nonce_vec, ciphertext })
}

/// The value a stored secret opens to: `None` when the ciphertext does not authenticate or
/// its plaintext is not UTF-8.
pub open spec fn opened_secret(
    master: Seq<u8>,
    secret_id: Seq<char>,
    kind: Seq<char>,
    ciphertext: Seq<u8>,
    nonce: Seq<u8>,
) -> Option<Seq<char>> {
    match xchacha20poly1305_open(master, nonce, secret_aad_bytes(secret_id, kind), ciphertext) {
        Some(p) => if valid_utf8(p) {
            Some(decode_utf8(p))
        } else {
            None
        },
        None => None,
    }
}

/// The text of std's `FromUtf8Error` for bytes that are not valid UTF-8.
pub uninterp spec fn utf8_error_text(bytes: Seq<u8>) -> Seq<char>;

/// `String::from_utf8` from std: the text whose UTF-8 encoding the bytes are, or the text of
/// the error when they are not valid UTF-8 (named `utf8_error_text`).
#[verifier::external_body]
pub(crate) fn string_from_utf8(bytes: Vec<u8>) -> (r: Result<String, String>)
    ensures
        r is Ok <==> valid_utf8(bytes@),
        r matches Ok(s) ==> s@ == decode_utf8(bytes@),
        r matches Err(e) ==> e@ == utf8_error_text(bytes@),
{
    String::from_utf8(bytes).map_err(|e| e.to_string())
}

/// Decrypt a stored secret's value; any failure is `DecryptionFailed`.
pub fn open_secret(master: &MasterKey, secret_id: &str, kind: &str, ciphertext: &[u8], nonce: &[u8]) -> (r: Result<
    String,
    CoreError,
>)
    requires
        nonce@.len() == NONCE_LEN,
    ensures
        match opened_secret(master@, secret_id@, kind@, ciphertext@, nonce@) {
            Some(v) => r matches Ok(x) && x@ == v,
            None => r == Err::<String, CoreError>(CoreError::DecryptionFailed),
        },
{
    let aad = secret_aad(secret_id, kind);
    let plaintext = match decrypt(master.as_slice(), nonce, aad.as_str().as_bytes(), ciphertext) {
        Ok(p) => p,
        Err(e) => return Err(e),
    };
    match string_from_utf8(plaintext) {
        Ok(v) => Ok(v),
        Err(_) => Err(CoreError::DecryptionFailed),
    }
}

/// A sealed secret opens, under the same master key, id and kind, to the value it sealed.
pub proof fn lemma_open_after_seal(
    master: Seq<u8>,
    secret_id: Seq<char>,
    kind: Seq<char>,
    value: Seq<char>,
    nonce: Seq<u8>,
    ciphertext: Seq<u8>,
)
    requires
        xchacha20poly1305_open(master, nonce, secret_aad_bytes(secret_id, kind), ciphertext) == Some(
            encode_utf8(value),
        ),
    ensures
        opened_secret(master, secret_id, kind, ciphertext, nonce) == Some(value),
{
    vstd::utf8::encode_utf8_valid_utf8(value);
    vstd::utf8::encode_utf8_decode_utf8(value);
}

/// What is listed about a stored secret: never its value.
#[derive(Debug, Clone, PartialEq, Eq)]
pub struct SecretMetadata {
    pub secret_id: String,
    pub kind: String,
    pub label: String,
    pub created_at: i64,
    pub updated_at: i64,
}

/// The listing of a secret added at `now`: created and updated then.
pub fn added_secret_metadata(secret_id: String, kind: String, label: String, now: i64) -> (r: SecretMetadata)
    ensures
        r == (SecretMetadata { secret_id, kind, label, created_at: now, updated_at: now }),
{
    SecretMetadata { secret_id, kind, label, created_at: now, updated_at: now }
}

} // verus!
