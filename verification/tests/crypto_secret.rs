use tdcore::config::SecretBackend;
use tdcore::secrets::{
    decrypt_file_key, encrypt_file_key, ensure_backend_available, key_from_text, new_key_text,
};
use tdcore::crypto::{decrypt, derive_key, encrypt, random_bytes, KdfParams, MasterKey};
use tdcore::error::CoreError;
use tdcore::id::IdError;
use tdcore::import_export::{export_secret_value, seal_imported_secret, ExportSecret};
use tdcore::secret::{
    new_secret_id, open_secret, prepare_master, seal_secret, unlock_master, MasterState,
};

#[test]
fn encrypt_decrypt_round_trip() {
    let params = KdfParams::default();
    let salt = random_bytes::<16>();
    let key = derive_key(b"password", &salt, &params).unwrap();
    let nonce = random_bytes::<24>();
    let aad = b"meta";
    let plaintext = b"super secret";
    let ct = encrypt(key.as_ref(), &nonce, aad, plaintext).unwrap();
    let decrypted = decrypt(key.as_ref(), &nonce, aad, &ct).unwrap();
    assert_eq!(decrypted, plaintext);
}

#[test]
fn aad_mismatch_fails() {
    let params = KdfParams::default();
    let salt = random_bytes::<16>();
    let key = derive_key(b"password", &salt, &params).unwrap();
    let nonce = random_bytes::<24>();
    let ct = encrypt(key.as_ref(), &nonce, b"aad1", b"plain").unwrap();
    let err = decrypt(key.as_ref(), &nonce, b"aad2", &ct).unwrap_err();
    assert!(matches!(err, CoreError::DecryptionFailed));
}

fn cheap_params() -> KdfParams {
    KdfParams { mem_cost_kib: 64, iterations: 1, parallelism: 1 }
}

#[test]
fn default_kdf_params_are_the_documented_costs() {
    let p = KdfParams::default();
    assert_eq!(p.mem_cost_kib, 19_456);
    assert_eq!(p.iterations, 3);
    assert_eq!(p.parallelism, 1);
}

#[test]
fn derivation_is_deterministic_and_salted() {
    let salt = [7u8; 16];
    let a = derive_key(b"pw", &salt, &cheap_params()).unwrap();
    let b = derive_key(b"pw", &salt, &cheap_params()).unwrap();
    assert_eq!(a, b);
    let c = derive_key(b"pw", &[8u8; 16], &cheap_params()).unwrap();
    assert_ne!(a, c);
    let d = derive_key(b"other", &salt, &cheap_params()).unwrap();
    assert_ne!(a, d);
}

#[test]
fn derivation_refusals_carry_the_argon2_text() {
    let err = derive_key(b"pw", &[1u8; 4], &cheap_params()).unwrap_err();
    assert_eq!(err, CoreError::Crypto("salt is too short".into()));
    let bad = KdfParams { mem_cost_kib: 4, iterations: 1, parallelism: 1 };
    let err = derive_key(b"pw", &[1u8; 16], &bad).unwrap_err();
    assert_eq!(err, CoreError::Crypto("memory cost is too small".into()));
    let bad = KdfParams { mem_cost_kib: 64, iterations: 0, parallelism: 1 };
    let err = derive_key(b"pw", &[1u8; 16], &bad).unwrap_err();
    assert_eq!(err, CoreError::Crypto("time cost is too small".into()));
    let bad = KdfParams { mem_cost_kib: 64, iterations: 1, parallelism: 0 };
    let err = derive_key(b"pw", &[1u8; 16], &bad).unwrap_err();
    assert_eq!(err, CoreError::Crypto("not enough threads".into()));
}

#[test]
fn ciphertext_carries_a_tag_and_differs_from_the_plaintext() {
    let key = [3u8; 32];
    let nonce = [4u8; 24];
    let ct = encrypt(&key, &nonce, b"a", b"hello").unwrap();
    assert_eq!(ct.len(), 5 + 16);
    assert_ne!(&ct[..5], b"hello");
    let wrong_key = [5u8; 32];
    assert_eq!(decrypt(&wrong_key, &nonce, b"a", &ct).unwrap_err(), CoreError::DecryptionFailed);
    assert_eq!(decrypt(&key, &nonce, b"a", &ct[..10]).unwrap_err(), CoreError::DecryptionFailed);
}

#[test]
fn master_required() {
    let err = unlock_master(None, b"bad").unwrap().unwrap_err();
    assert!(matches!(err, CoreError::MasterNotSet));
}

#[test]
fn set_master_and_reveal() {
    let (state, _key) = prepare_master(false, b"topsecret").unwrap();
    let master = unlock_master(Some(&state), b"topsecret").unwrap().unwrap();
    let secret_id = new_secret_id(None).unwrap();
    let sealed = seal_secret(&master, &secret_id, "password", "hunter2").unwrap();
    let revealed =
        open_secret(&master, &secret_id, "password", &sealed.ciphertext, &sealed.nonce).unwrap();
    assert_eq!(revealed, "hunter2");
}

#[test]
fn wrong_master_fails() {
    let (state, _key) = prepare_master(false, b"right").unwrap();
    let master = unlock_master(Some(&state), b"right").unwrap().unwrap();
    let secret_id = new_secret_id(Some("s_test")).unwrap();
    let sealed = seal_secret(&master, &secret_id, "token", "value").unwrap();
    let err = unlock_master(Some(&state), b"wrong").unwrap().unwrap_err();
    assert!(matches!(err, CoreError::MasterVerificationFailed));
    let zero: MasterKey = [0u8; 32];
    let err = open_secret(&zero, &secret_id, "token", &sealed.ciphertext, &sealed.nonce).unwrap_err();
    assert!(matches!(err, CoreError::DecryptionFailed));
}

#[test]
fn created_state_verifies_with_its_password_only() {
    let (state, key) = MasterState::create(b"pw").unwrap();
    assert_eq!(state.salt.len(), 16);
    assert_eq!(state.params, KdfParams::default());
    assert!(state.nonce_fits());
    assert_eq!(state.load_and_verify(b"pw").unwrap(), key);
    assert_eq!(state.load_and_verify(b"pw2").unwrap_err(), CoreError::DecryptionFailed);
}

#[test]
fn master_cannot_be_set_twice() {
    let err = prepare_master(true, b"pw").unwrap_err();
    assert_eq!(err, CoreError::MasterAlreadySet);
}

#[test]
fn broken_check_tokens_are_reported() {
    let (mut state, _key) = MasterState::create(b"pw").unwrap();
    state.check.ciphertext = "!!".into();
    let err = state.load_and_verify(b"pw").unwrap_err();
    assert!(matches!(err, CoreError::Crypto(_)));
    let err = unlock_master(Some(&state), b"pw").unwrap().unwrap_err();
    assert_eq!(err, CoreError::MasterVerificationFailed);
    state.check.nonce = "AAAA".into();
    assert!(!state.nonce_fits());
    assert!(unlock_master(Some(&state), b"pw").is_none());
}

#[test]
fn secrets_are_bound_to_their_id_and_kind() {
    let master = [9u8; 32];
    let sealed = seal_secret(&master, "s_abc", "token", "v").unwrap();
    assert_eq!(sealed.nonce.len(), 24);
    assert_eq!(sealed.ciphertext.len(), 1 + 16);
    let err = open_secret(&master, "s_abd", "token", &sealed.ciphertext, &sealed.nonce).unwrap_err();
    assert_eq!(err, CoreError::DecryptionFailed);
    let err = open_secret(&master, "s_abc", "password", &sealed.ciphertext, &sealed.nonce).unwrap_err();
    assert_eq!(err, CoreError::DecryptionFailed);
    let ok = open_secret(&master, "s_abc", "token", &sealed.ciphertext, &sealed.nonce).unwrap();
    assert_eq!(ok, "v");
}

#[test]
fn non_utf8_plaintext_is_a_decryption_failure() {
    let master = [1u8; 32];
    let nonce = [2u8; 24];
    let ct = encrypt(&master, &nonce, b"s_abc:token", &[0xff, 0xfe]).unwrap();
    let err = open_secret(&master, "s_abc", "token", &ct, &nonce).unwrap_err();
    assert_eq!(err, CoreError::DecryptionFailed);
}

#[test]
fn secret_ids_are_normalised_validated_or_generated() {
    assert_eq!(new_secret_id(Some("S_Test")).unwrap(), "s_test");
    assert_eq!(new_secret_id(Some("ab")).unwrap_err(), CoreError::InvalidId(IdError::TooShort));
    assert_eq!(new_secret_id(Some("list")).unwrap_err(), CoreError::InvalidId(IdError::Reserved));
    let fresh = new_secret_id(None).unwrap();
    assert!(fresh.starts_with("s_"));
    assert_eq!(fresh.len(), 10);
}

fn exported(value: Option<&str>) -> ExportSecret {
    ExportSecret {
        secret_id: "s_db".into(),
        kind: "password".into(),
        label: "db".into(),
        created_at: 1,
        updated_at: 2,
        value: value.map(|v| v.to_string()),
    }
}

#[test]
fn imported_secrets_are_sealed_and_exported_back() {
    let master = [6u8; 32];
    let sealed = seal_imported_secret(&exported(Some("pw1")), &master).unwrap();
    let value =
        export_secret_value(true, Some(&master), "s_db", "password", &sealed.ciphertext, &sealed.nonce)
            .unwrap();
    assert_eq!(value, Some("pw1".to_string()));
    let none =
        export_secret_value(false, None, "s_db", "password", &sealed.ciphertext, &sealed.nonce).unwrap();
    assert_eq!(none, None);
}

#[test]
fn export_and_import_refusals() {
    let master = [6u8; 32];
    let err = seal_imported_secret(&exported(None), &master).unwrap_err();
    assert_eq!(err, CoreError::Import("secret value missing".into()));
    let err = export_secret_value(true, None, "s_db", "password", &[], &[]).unwrap_err();
    assert_eq!(err, CoreError::Import("master key required to export secrets".into()));
    let err = export_secret_value(true, Some(&master), "s_db", "password", &[1, 2, 3], &[0u8; 24])
        .unwrap_err();
    assert_eq!(err, CoreError::DecryptionFailed);
}

#[test]
fn file_key_blobs_round_trip_and_refuse_damage() {
    let key = key_from_text(&format!("  {}\n", new_key_text())).unwrap();
    assert_eq!(key.len(), 32);
    let blob = encrypt_file_key(&key, "pässword".as_bytes()).unwrap();
    assert_eq!(decrypt_file_key(&key, &blob).unwrap(), "pässword");
    assert_eq!(
        decrypt_file_key(&key, "AAAA").unwrap_err(),
        CoreError::Crypto("ciphertext too short".into())
    );
    let other = vec![7u8; 32];
    assert_eq!(
        decrypt_file_key(&other, &blob).unwrap_err(),
        CoreError::Crypto("decrypt: aead::Error".into())
    );
    assert!(matches!(decrypt_file_key(&key, "!!").unwrap_err(), CoreError::Crypto(m) if m.starts_with("decode: ")));
    assert_eq!(
        key_from_text("AAAA").unwrap_err(),
        CoreError::Crypto("invalid key length".into())
    );
    assert!(matches!(key_from_text("***").unwrap_err(), CoreError::Crypto(m) if m.starts_with("failed to decode key: ")));
    let bad_utf8 = encrypt_file_key(&key, &[0xff]).unwrap();
    assert!(matches!(decrypt_file_key(&key, &bad_utf8).unwrap_err(), CoreError::Crypto(m) if m.starts_with("utf8: ")));
    assert!(ensure_backend_available(SecretBackend::FileKey, false).is_ok());
    assert!(ensure_backend_available(SecretBackend::WindowsDpapi, true).is_ok());
    assert_eq!(
        ensure_backend_available(SecretBackend::WindowsDpapi, false).unwrap_err(),
        CoreError::Crypto("DPAPI backend is only available on Windows".into())
    );
}
