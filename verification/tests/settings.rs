use tdcore::settings::{resolve_setting_value, setting_flag, SettingScope, SettingScopeKind};
use tdcore::settings_registry::{
    list_keys, list_schemas, schema_for_key, scope_supported, validate_setting_value,
    SettingValueType,
};

#[test]
fn scopes_round_trip_through_their_stored_key() {
    for scope in [
        SettingScope::Global,
        SettingScope::Env("prod".to_string()),
        SettingScope::Profile("p_web".to_string()),
    ] {
        assert_eq!(SettingScope::parse(&scope.as_db()).unwrap(), scope);
    }
    assert_eq!(SettingScope::profile("p_x".to_string()).kind(), SettingScopeKind::Profile);
}

#[test]
fn resolution_prefers_override_then_scope_then_env_then_global() {
    let scope = SettingScope::profile("p_x".to_string());
    let s = |v: &str| Some(v.to_string());
    assert_eq!(resolve_setting_value(&scope, s("o"), s("p"), s("e"), s("g")), s("o"));
    assert_eq!(resolve_setting_value(&scope, None, s("p"), s("e"), s("g")), s("p"));
    assert_eq!(resolve_setting_value(&scope, None, None, s("e"), s("g")), s("e"));
    assert_eq!(resolve_setting_value(&scope, None, None, None, s("g")), s("g"));
}

#[test]
fn flags_read_true_in_any_case() {
    assert!(setting_flag(Some(" TRUE ")));
    assert!(!setting_flag(Some("yes")));
    assert!(!setting_flag(None));
}

#[test]
fn registry_lists_and_validates_settings() {
    assert_eq!(
        list_keys(),
        vec!["allow_insecure_transfers", "ssh_auth_order", "client_overrides"]
    );
    assert_eq!(list_schemas().len(), 3);
    assert_eq!(
        schema_for_key("client_overrides").unwrap().value_type,
        SettingValueType::Json
    );
    assert!(schema_for_key("nope").is_none());
    assert_eq!(validate_setting_value("allow_insecure_transfers", " Yes ").unwrap(), "true");
    assert_eq!(validate_setting_value("ssh_auth_order", "keys, agent").unwrap(), "keys,agent");
    assert_eq!(
        validate_setting_value("client_overrides", "{ \"ssh\" : \"/x\" }").unwrap(),
        "{\"ssh\":\"/x\"}"
    );
    assert!(validate_setting_value("client_overrides", "{").is_err());
    assert!(validate_setting_value("bogus", "1").is_err());
    assert_eq!(scope_supported("client_overrides", SettingScopeKind::Env).unwrap(), false);
    assert_eq!(scope_supported("ssh_auth_order", SettingScopeKind::Env).unwrap(), true);
}

#[test]
fn validated_values_validate_to_themselves() {
    for (key, raw) in [
        ("allow_insecure_transfers", " Yes "),
        ("allow_insecure_transfers", "0"),
        ("ssh_auth_order", " password ,, keys "),
        ("ssh_auth_order", "agent"),
    ] {
        let v = validate_setting_value(key, raw).unwrap();
        assert_eq!(validate_setting_value(key, &v).unwrap(), v);
    }
}

#[test]
fn auth_orders_with_unknown_or_repeated_items_are_refused() {
    assert!(validate_setting_value("ssh_auth_order", "agent,agent").is_err());
    assert!(validate_setting_value("ssh_auth_order", "agent,sms").is_err());
    assert!(validate_setting_value("ssh_auth_order", " , ").is_err());
    assert_eq!(validate_setting_value("ssh_auth_order", ",keys,").unwrap(), "keys");
}
