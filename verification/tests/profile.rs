use tdcore::error::CoreError;
use tdcore::profile::{DangerLevel, NewProfile, ProfileType};

fn base_profile() -> NewProfile {
    NewProfile {
        profile_id: Some("p_test123".to_string()),
        name: "Test Profile".to_string(),
        profile_type: ProfileType::Ssh,
        host: "example.com".to_string(),
        port: 22,
        user: "alice".to_string(),
        danger_level: DangerLevel::Normal,
        group: None,
        tags: vec!["default".into()],
        note: Some("note".into()),
        initial_send: None,
        client_overrides: None,
    }
}

#[test]
fn rejects_invalid_id() {
    let mut profile = base_profile();
    profile.profile_id = Some("Bad*Id".into());
    let err = profile.normalize_id().unwrap_err();
    assert!(matches!(err, CoreError::InvalidId(_)));
}

#[test]
fn explicit_ids_are_lowercased_and_kept() {
    let mut profile = base_profile();
    assert_eq!(profile.normalize_id().unwrap(), "p_test123");
    profile.profile_id = Some("LAB1".into());
    assert_eq!(profile.normalize_id().unwrap(), "lab1");
}

#[test]
fn generated_ids_take_the_profile_prefix() {
    let mut profile = base_profile();
    profile.profile_id = None;
    let id = profile.normalize_id().unwrap();
    assert!(id.starts_with("p_"));
    assert!(tdcore::id::validate_id(&id).is_ok());
}
