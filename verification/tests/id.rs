use tdcore::id::{generate_id, normalize_id, validate_id, IdError};

#[test]
fn normalize_lowercases() {
    assert_eq!(normalize_id("AbC_123"), "abc_123");
}

#[test]
fn rejects_empty_and_length() {
    assert_eq!(validate_id(""), Err(IdError::Empty));
    assert_eq!(validate_id("a"), Err(IdError::TooShort));
    let long = "a".repeat(65);
    assert_eq!(validate_id(&long), Err(IdError::TooLong));
}

#[test]
fn rejects_reserved_and_format() {
    assert_eq!(validate_id("list"), Err(IdError::Reserved));
    assert_eq!(validate_id("Bad*"), Err(IdError::InvalidFormat));
}

#[test]
fn accepts_valid_ids() {
    assert!(validate_id("p_valid-id_123").is_ok());
}

#[test]
fn generates_prefixed_ids() {
    let id = generate_id("p_");
    assert!(id.starts_with("p_"));
    assert!(id.len() >= 3);
    assert!(id.len() <= 64);
    assert!(validate_id(&id).is_ok());
}

#[test]
fn generated_ids_have_eight_base32_characters_after_the_prefix() {
    let id = generate_id("sl_");
    assert_eq!(id.len(), 11);
    assert!(id[3..]
        .chars()
        .all(|c| ('a'..='z').contains(&c) || ('2'..='7').contains(&c)));
}

#[test]
fn validates_length_bounds_exactly() {
    assert!(validate_id("abc").is_ok());
    assert_eq!(validate_id("ab"), Err(IdError::TooShort));
    assert!(validate_id(&"a".repeat(64)).is_ok());
}

#[test]
fn validation_counts_bytes_and_rejects_non_ascii() {
    assert_eq!(validate_id("é"), Err(IdError::TooShort));
    assert_eq!(validate_id("abé"), Err(IdError::InvalidFormat));
}

#[test]
fn lowercasing_is_unicode_aware() {
    assert_eq!(normalize_id("ÄBC"), "äbc");
}

#[test]
fn core_errors_have_their_messages() {
    assert_eq!(tdcore::error::CoreError::InvalidId(IdError::TooShort).to_text(), "invalid id: TooShort");
    assert_eq!(tdcore::error::CoreError::NotFound("p1".into()).to_text(), "unknown profile: p1");
    assert_eq!(tdcore::error::CoreError::DecryptionFailed.to_text(), "decryption failed");
    assert_eq!(tdcore::error::CoreError::Import("bad".into()).to_text(), "import error: bad");
}
